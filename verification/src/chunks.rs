//! Which terrain chunks to generate, mesh again or drop around the player.

use vstd::prelude::*;
use crate::items::BlockType;

verus! {

/// A chunk column's coordinate on the horizontal grid.
#[derive(Clone, Copy, Debug, PartialEq, Eq, Structural)]
pub struct ChunkCoord {
    pub x: i32,
    pub z: i32,
}

pub open spec fn abs_int(v: int) -> int {
    if v < 0 { -v } else { v }
}

/// The distance that picks a chunk's level of detail: the larger of the two
/// axis distances in chunks.
pub open spec fn spec_chunk_distance(a: ChunkCoord, b: ChunkCoord) -> int {
    let dx = abs_int(a.x - b.x);
    let dz = abs_int(a.z - b.z);
    if dx >= dz { dx } else { dz }
}

fn abs_diff(a: i32, b: i32) -> (r: u64)
    ensures
        r == abs_int(a - b),
{
    let d: i64 = (a as i64) - (b as i64);
    if d < 0 { (-d) as u64 } else { d as u64 }
}

pub fn chunk_distance(a: ChunkCoord, b: ChunkCoord) -> (d: u64)
    ensures
        d == spec_chunk_distance(a, b),
{
    let dx = abs_diff(a.x, b.x);
    let dz = abs_diff(a.z, b.z);
    if dx >= dz { dx } else { dz }
}

/// A loaded chunk is dropped once it is more than one chunk beyond the view
/// distance on either axis.
pub open spec fn spec_too_far(c: ChunkCoord, player: ChunkCoord, view_distance: i32) -> bool {
    abs_int(c.x - player.x) > view_distance + 1 || abs_int(c.z - player.z) > view_distance + 1
}

/// The loaded chunks to drop, in the order they are listed.
pub open spec fn spec_chunks_to_unload(loaded: Seq<ChunkCoord>, player: ChunkCoord, view_distance: i32) -> Seq<ChunkCoord> {
    loaded.filter(|c: ChunkCoord| spec_too_far(c, player, view_distance))
}

pub fn chunks_to_unload(loaded: &Vec<ChunkCoord>, player: ChunkCoord, view_distance: i32) -> (v: Vec<ChunkCoord>)
    ensures
        v@ == spec_chunks_to_unload(loaded@, player, view_distance),
{
    let mut v: Vec<ChunkCoord> = Vec::new();
    let mut i: usize = 0;
    let limit: i64 = view_distance as i64 + 1;
    while i < loaded.len()
        invariant
            i <= loaded.len(),
            limit == view_distance + 1,
            v@ == loaded@.take(i as int).filter(|c: ChunkCoord| spec_too_far(c, player, view_distance)),
        decreases loaded.len() - i,
    {
        let c = loaded[i];
        proof {
            assert(loaded@.take(i as int + 1).drop_last() =~= loaded@.take(i as int));
            reveal(Seq::filter);
            assert(loaded@.take(i as int + 1).last() == c);
        }
        if abs_diff(c.x, player.x) as i64 > limit || abs_diff(c.z, player.z) as i64 > limit {
            v.push(c);
        }
        i = i + 1;
    }
    assert(loaded@.take(i as int) =~= loaded@);
    v
}

/// The `k`-th chunk of the square of side `2 * view_distance + 1` around the
/// player, row by row: x outer, z inner, both from the low side.
pub open spec fn spawn_candidate(player: ChunkCoord, view_distance: int, k: int) -> ChunkCoord {
    let side = 2 * view_distance + 1;
    ChunkCoord { x: (player.x - view_distance + k / side) as i32, z: (player.z - view_distance + k % side) as i32 }
}

/// The first `n` candidates that are neither loaded nor being generated.
pub open spec fn missing_chunks(
    player: ChunkCoord,
    view_distance: int,
    loaded: Seq<ChunkCoord>,
    pending: Seq<ChunkCoord>,
    n: int,
) -> Seq<ChunkCoord>
    decreases n,
{
    if n <= 0 {
        Seq::empty()
    } else {
        let prev = missing_chunks(player, view_distance, loaded, pending, n - 1);
        let c = spawn_candidate(player, view_distance, n - 1);
        if loaded.contains(c) || pending.contains(c) {
            prev
        } else {
            prev.push(c)
        }
    }
}

pub open spec fn keep_first_chunks(s: Seq<ChunkCoord>, n: int) -> Seq<ChunkCoord> {
    if s.len() <= n { s } else { s.subrange(0, n) }
}

/// The chunks whose generation starts this frame: at most four, the first
/// missing ones of the square around the player.
pub open spec fn spec_chunks_to_spawn(
    player: ChunkCoord,
    view_distance: i32,
    loaded: Seq<ChunkCoord>,
    pending: Seq<ChunkCoord>,
) -> Seq<ChunkCoord> {
    if view_distance < 0 {
        Seq::empty()
    } else {
        let side = 2 * view_distance + 1;
        keep_first_chunks(missing_chunks(player, view_distance as int, loaded, pending, side * side), 4)
    }
}

proof fn lemma_missing_prefix(
    player: ChunkCoord,
    vd: int,
    loaded: Seq<ChunkCoord>,
    pending: Seq<ChunkCoord>,
    k: int,
    n: int,
)
    requires
        0 <= k <= n,
    ensures
        missing_chunks(player, vd, loaded, pending, n).len() >= missing_chunks(player, vd, loaded, pending, k).len(),
        missing_chunks(player, vd, loaded, pending, n).subrange(0, missing_chunks(player, vd, loaded, pending, k).len() as int)
            == missing_chunks(player, vd, loaded, pending, k),
    decreases n - k,
{
    if k < n {
        lemma_missing_prefix(player, vd, loaded, pending, k, n - 1);
        let a = missing_chunks(player, vd, loaded, pending, n - 1);
        let b = missing_chunks(player, vd, loaded, pending, n);
        let m = missing_chunks(player, vd, loaded, pending, k);
        assert(b.subrange(0, m.len() as int) =~= a.subrange(0, m.len() as int));
    } else {
        let m = missing_chunks(player, vd, loaded, pending, k);
        assert(m.subrange(0, m.len() as int) =~= m);
    }
}

proof fn lemma_missing_len(player: ChunkCoord, vd: int, loaded: Seq<ChunkCoord>, pending: Seq<ChunkCoord>, n: int)
    ensures
        missing_chunks(player, vd, loaded, pending, n).len() <= if n < 0 { 0 } else { n },
    decreases n,
{
    if n > 0 {
        lemma_missing_len(player, vd, loaded, pending, n - 1);
    }
}

fn contains_chunk(v: &Vec<ChunkCoord>, c: ChunkCoord) -> (r: bool)
    ensures
        r == v@.contains(c),
{
    let mut i: usize = 0;
    while i < v.len()
        invariant
            i <= v.len(),
            forall|j: int| 0 <= j < i ==> v@[j] != c,
        decreases v.len() - i,
    {
        if v[i] == c {
            assert(v@[i as int] == c);
            return true;
        }
        i = i + 1;
    }
    false
}

/// Pick the chunks to start generating (see [`spec_chunks_to_spawn`]).
pub fn chunks_to_spawn(
    player: ChunkCoord,
    view_distance: i32,
    loaded: &Vec<ChunkCoord>,
    pending: &Vec<ChunkCoord>,
) -> (v: Vec<ChunkCoord>)
    requires
        view_distance >= 0 ==> player.x - view_distance >= i32::MIN && player.x + view_distance <= i32::MAX
            && player.z - view_distance >= i32::MIN && player.z + view_distance <= i32::MAX,
    ensures
        v@ == spec_chunks_to_spawn(player, view_distance, loaded@, pending@),
{
    let mut v: Vec<ChunkCoord> = Vec::new();
    if view_distance < 0 {
        return v;
    }
    let side: u64 = 2 * (view_distance as u64) + 1;
    let ghost vd = view_distance as int;
    assert(side * side <= u64::MAX) by (nonlinear_arith)
        requires
            side <= 2 * 0x7fff_ffffu64 + 1;
    let total: u64 = side * side;
    let mut k: u64 = 0;
    while k < total && v.len() < 4
        invariant
            side == 2 * vd + 1,
            vd == view_distance as int,
            0 <= vd <= i32::MAX,
            total == side * side,
            k <= total,
            player.x - vd >= i32::MIN && player.x + vd <= i32::MAX,
            player.z - vd >= i32::MIN && player.z + vd <= i32::MAX,
            v@ == missing_chunks(player, vd, loaded@, pending@, k as int),
            v@.len() <= 4,
        decreases total - k,
    {
        assert(k / side < side && k % side < side) by (nonlinear_arith)
            requires
                k < side * side,
                side > 0;
        let cx: i64 = player.x as i64 - view_distance as i64 + (k / side) as i64;
        let cz: i64 = player.z as i64 - view_distance as i64 + (k % side) as i64;
        assert((k / side) as int == (k as int) / (2 * vd + 1));
        assert((k % side) as int == (k as int) % (2 * vd + 1));
        assert(i32::MIN <= cx <= i32::MAX);
        assert(i32::MIN <= cz <= i32::MAX);
        let c = ChunkCoord { x: cx as i32, z: cz as i32 };
        assert(c == spawn_candidate(player, vd, k as int));
        if !contains_chunk(loaded, c) && !contains_chunk(pending, c) {
            v.push(c);
        }
        k = k + 1;
    }
    proof {
        lemma_missing_prefix(player, vd, loaded@, pending@, k as int, total as int);
        lemma_missing_len(player, vd, loaded@, pending@, total as int);
        let full = missing_chunks(player, vd, loaded@, pending@, total as int);
        if v@.len() == 4 {
            assert(keep_first_chunks(full, 4) =~= v@);
        } else {
            assert(k == total);
        }
    }
    v
}

/// The indices of the first `k` set flags, in order.
pub open spec fn first_flagged(flags: Seq<bool>, k: nat, n: int) -> Seq<usize>
    decreases n,
{
    if n <= 0 {
        Seq::empty()
    } else {
        let prev = first_flagged(flags, k, n - 1);
        if flags[n - 1] && prev.len() < k {
            prev.push((n - 1) as usize)
        } else {
            prev
        }
    }
}

/// The positions of the first `k` set flags. It serves every per-frame budget of
/// the chunk systems: at most two finished generations are taken in, at most two
/// level-of-detail rebuilds and at most four dirty chunks are meshed again.
pub fn select_first(flags: &Vec<bool>, k: usize) -> (v: Vec<usize>)
    ensures
        v@ == first_flagged(flags@, k as nat, flags@.len() as int),
        v@.len() <= k,
{
    let mut v: Vec<usize> = Vec::new();
    let mut i: usize = 0;
    while i < flags.len()
        invariant
            i <= flags.len(),
            v@ == first_flagged(flags@, k as nat, i as int),
            v@.len() <= k,
        decreases flags.len() - i,
    {
        if flags[i] && v.len() < k {
            v.push(i);
        }
        i = i + 1;
    }
    v
}

/// The four side neighbours of a chunk: -x, +x, -z, +z.
pub open spec fn spec_chunk_neighbors(c: ChunkCoord) -> Seq<ChunkCoord> {
    seq![
        ChunkCoord { x: (c.x - 1) as i32, z: c.z },
        ChunkCoord { x: (c.x + 1) as i32, z: c.z },
        ChunkCoord { x: c.x, z: (c.z - 1) as i32 },
        ChunkCoord { x: c.x, z: (c.z + 1) as i32 },
    ]
}

/// After a chunk loads, the loaded neighbours that did not load this frame are
/// meshed again (their faces towards it change), in neighbour order.
pub open spec fn spec_neighbors_to_remesh(c: ChunkCoord, loaded: Seq<ChunkCoord>, just_loaded: Seq<ChunkCoord>) -> Seq<ChunkCoord> {
    spec_chunk_neighbors(c).filter(|n: ChunkCoord| loaded.contains(n) && !just_loaded.contains(n))
}

pub fn neighbors_to_remesh(c: ChunkCoord, loaded: &Vec<ChunkCoord>, just_loaded: &Vec<ChunkCoord>) -> (v: Vec<ChunkCoord>)
    requires
        i32::MIN < c.x < i32::MAX,
        i32::MIN < c.z < i32::MAX,
    ensures
        v@ == spec_neighbors_to_remesh(c, loaded@, just_loaded@),
{
    let ns = [
        ChunkCoord { x: c.x - 1, z: c.z },
        ChunkCoord { x: c.x + 1, z: c.z },
        ChunkCoord { x: c.x, z: c.z - 1 },
        ChunkCoord { x: c.x, z: c.z + 1 },
    ];
    let ghost all = spec_chunk_neighbors(c);
    let ghost pred = |n: ChunkCoord| loaded@.contains(n) && !just_loaded@.contains(n);
    let mut v: Vec<ChunkCoord> = Vec::new();
    let mut i: usize = 0;
    while i < 4
        invariant
            i <= 4,
            all == spec_chunk_neighbors(c),
            forall|j: int| 0 <= j < 4 ==> ns@[j] == all[j],
            pred == (|n: ChunkCoord| loaded@.contains(n) && !just_loaded@.contains(n)),
            v@ == all.take(i as int).filter(pred),
        decreases 4 - i,
    {
        let n = ns[i];
        proof {
            assert(all.take(i as int + 1).drop_last() =~= all.take(i as int));
            reveal(Seq::filter);
            assert(all.take(i as int + 1).last() == n);
        }
        if contains_chunk(loaded, n) && !contains_chunk(just_loaded, n) {
            v.push(n);
        }
        i = i + 1;
    }
    assert(all.take(4) =~= all);
    v
}

/// The block at index `i` of a chunk after the first `n` player edits (later
/// edits win) are laid over the generated terrain.
pub open spec fn block_after_edits(
    generated: Seq<Option<BlockType>>,
    edits: Seq<(usize, Option<BlockType>)>,
    i: int,
    n: int,
) -> Option<BlockType>
    decreases n,
{
    if n <= 0 {
        generated[i]
    } else if edits[n - 1].0 == i {
        edits[n - 1].1
    } else {
        block_after_edits(generated, edits, i, n - 1)
    }
}

/// A freshly generated chunk takes the player's edits inside it: a placed block
/// replaces what was generated, a removed one leaves air.
pub fn apply_block_edits(blocks: &mut Vec<Option<BlockType>>, edits: &Vec<(usize, Option<BlockType>)>)
    requires
        forall|k: int| 0 <= k < edits@.len() ==> (#[trigger] edits@[k]).0 < old(blocks)@.len(),
    ensures
        final(blocks)@.len() == old(blocks)@.len(),
        forall|i: int| 0 <= i < old(blocks)@.len() ==> #[trigger] final(blocks)@[i]
            == block_after_edits(old(blocks)@, edits@, i, edits@.len() as int),
{
    let ghost start = blocks@;
    let mut k: usize = 0;
    while k < edits.len()
        invariant
            k <= edits.len(),
            blocks@.len() == start.len(),
            forall|j: int| 0 <= j < edits@.len() ==> (#[trigger] edits@[j]).0 < start.len(),
            forall|i: int| 0 <= i < start.len() ==> #[trigger] blocks@[i] == block_after_edits(start, edits@, i, k as int),
        decreases edits.len() - k,
    {
        let (idx, b) = edits[k];
        assert(edits@[k as int].0 < start.len());
        blocks.set(idx, b);
        k = k + 1;
    }
}

/// Most finished chunk generations taken in per frame.
pub const MAX_CHUNKS_PER_FRAME: usize = 2;

/// Most dirty chunks meshed again per frame.
pub const MAX_DIRTY_PER_FRAME: usize = 4;

/// Walking the first `n` pending generations in order, the finished ones taken
/// in (at most [`MAX_CHUNKS_PER_FRAME`]) and the ones left pending.
pub open spec fn receive_split(pending: Seq<ChunkCoord>, finished: Seq<bool>, n: int) -> (Seq<ChunkCoord>, Seq<ChunkCoord>)
    decreases n,
{
    if n <= 0 {
        (Seq::empty(), Seq::empty())
    } else {
        let prev = receive_split(pending, finished, n - 1);
        if finished[n - 1] && prev.0.len() < MAX_CHUNKS_PER_FRAME {
            (prev.0.push(pending[n - 1]), prev.1)
        } else {
            (prev.0, prev.1.push(pending[n - 1]))
        }
    }
}

/// What the arrival of finished chunk generations does this frame.
pub struct ChunkArrivals {
    /// The generations taken in, in pending order; they leave the pending list.
    pub taken: Vec<ChunkCoord>,
    /// The taken chunks not loaded yet: each is built from its generated blocks
    /// with the player's edits laid over them (see [`apply_block_edits`]) and
    /// its loaded neighbours are meshed again. A taken chunk that is already
    /// loaded is left as it is.
    pub to_load: Vec<ChunkCoord>,
}

/// Take in finished chunk generations: at most two, the first finished ones in
/// pending order. Exactly those leave `pending`, which otherwise keeps its order.
pub fn receive_chunks(pending: &mut Vec<ChunkCoord>, finished: &Vec<bool>, loaded: &Vec<ChunkCoord>) -> (a: ChunkArrivals)
    requires
        finished@.len() == old(pending)@.len(),
    ensures
        a.taken@ == receive_split(old(pending)@, finished@, old(pending)@.len() as int).0,
        final(pending)@ == receive_split(old(pending)@, finished@, old(pending)@.len() as int).1,
        a.taken@.len() <= MAX_CHUNKS_PER_FRAME,
        a.to_load@ == a.taken@.filter(|c: ChunkCoord| !loaded@.contains(c)),
{
    let ghost start = pending@;
    let mut taken: Vec<ChunkCoord> = Vec::new();
    let mut kept: Vec<ChunkCoord> = Vec::new();
    let mut i: usize = 0;
    while i < pending.len()
        invariant
            pending@ == start,
            finished@.len() == start.len(),
            i <= start.len(),
            (taken@, kept@) == receive_split(start, finished@, i as int),
            taken@.len() <= MAX_CHUNKS_PER_FRAME,
        decreases start.len() - i,
    {
        let c = pending[i];
        if finished[i] && taken.len() < MAX_CHUNKS_PER_FRAME {
            taken.push(c);
        } else {
            kept.push(c);
        }
        i = i + 1;
    }
    *pending = kept;
    let ghost pred = |c: ChunkCoord| !loaded@.contains(c);
    let mut to_load: Vec<ChunkCoord> = Vec::new();
    let mut j: usize = 0;
    while j < taken.len()
        invariant
            j <= taken@.len(),
            pred == (|c: ChunkCoord| !loaded@.contains(c)),
            to_load@ == taken@.take(j as int).filter(pred),
        decreases taken.len() - j,
    {
        let c = taken[j];
        proof {
            assert(taken@.take(j as int + 1).drop_last() =~= taken@.take(j as int));
            reveal(Seq::filter);
            assert(taken@.take(j as int + 1).last() == c);
        }
        if !contains_chunk(loaded, c) {
            to_load.push(c);
        }
        j = j + 1;
    }
    assert(taken@.take(j as int) =~= taken@);
    ChunkArrivals { taken, to_load }
}

/// From index `i` of the dirty list on, with `taken` already chosen: the loaded
/// chunks to mesh again (at most [`MAX_DIRTY_PER_FRAME`]; unloaded ones are
/// passed over) and the index where this frame stops.
pub open spec fn dirty_from(dirty: Seq<ChunkCoord>, loaded: Seq<ChunkCoord>, i: int, taken: Seq<ChunkCoord>) -> (Seq<ChunkCoord>, int)
    decreases dirty.len() - i,
{
    if i < 0 || i >= dirty.len() || taken.len() >= MAX_DIRTY_PER_FRAME {
        (taken, i)
    } else if loaded.contains(dirty[i]) {
        dirty_from(dirty, loaded, i + 1, taken.push(dirty[i]))
    } else {
        dirty_from(dirty, loaded, i + 1, taken)
    }
}

proof fn lemma_dirty_from(dirty: Seq<ChunkCoord>, loaded: Seq<ChunkCoord>, i: int, taken: Seq<ChunkCoord>)
    requires
        0 <= i <= dirty.len(),
        taken.len() <= MAX_DIRTY_PER_FRAME,
    ensures
        ({
            let r = dirty_from(dirty, loaded, i, taken);
            &&& i <= r.1 <= dirty.len()
            &&& taken.len() <= r.0.len() <= MAX_DIRTY_PER_FRAME
            &&& forall|k: int| 0 <= k < taken.len() ==> r.0[k] == taken[k]
            &&& forall|j: int| i <= j < r.1 && loaded.contains(#[trigger] dirty[j]) ==> r.0.contains(dirty[j])
            &&& forall|k: int| taken.len() <= k < r.0.len() ==> loaded.contains(#[trigger] r.0[k])
        }),
    decreases dirty.len() - i,
{
    if i >= dirty.len() || taken.len() >= MAX_DIRTY_PER_FRAME {
    } else if loaded.contains(dirty[i]) {
        let t2 = taken.push(dirty[i]);
        lemma_dirty_from(dirty, loaded, i + 1, t2);
        let r = dirty_from(dirty, loaded, i, taken);
        assert(r == dirty_from(dirty, loaded, i + 1, t2));
        assert(t2[taken.len() as int] == dirty[i]);
        assert(r.0[taken.len() as int] == dirty[i]);
        assert forall|k: int| 0 <= k < taken.len() implies r.0[k] == taken[k] by {
            assert(t2[k] == taken[k]);
        }
        assert forall|j: int| i <= j < r.1 && loaded.contains(#[trigger] dirty[j]) implies r.0.contains(dirty[j]) by {
            if j == i {
                assert(r.0[taken.len() as int] == dirty[j]);
            }
        }
        assert forall|k: int| taken.len() <= k < r.0.len() implies loaded.contains(#[trigger] r.0[k]) by {
            if k == taken.len() {
                assert(r.0[k] == dirty[i]);
            }
        }
    } else {
        lemma_dirty_from(dirty, loaded, i + 1, taken);
        let r = dirty_from(dirty, loaded, i, taken);
        assert(r == dirty_from(dirty, loaded, i + 1, taken));
    }
}

/// The dirty chunks to mesh again this frame and the ones that wait.
pub struct DirtyPlan {
    pub regenerate: Vec<ChunkCoord>,
    pub remaining: Vec<ChunkCoord>,
}

/// Mesh again at most four dirty chunks this frame: the loaded ones, in list
/// order (chunks no longer loaded are dropped). The frame stops after the
/// fourth; the dirty chunks after it stay for later frames.
pub fn plan_dirty_chunks(dirty: &Vec<ChunkCoord>, loaded: &Vec<ChunkCoord>) -> (plan: DirtyPlan)
    ensures
        ({
            let r = dirty_from(dirty@, loaded@, 0, Seq::empty());
            &&& plan.regenerate@ == r.0
            &&& plan.remaining@ == dirty@.subrange(r.1, dirty@.len() as int)
        }),
        plan.regenerate@.len() <= MAX_DIRTY_PER_FRAME,
        forall|k: int| 0 <= k < plan.regenerate@.len() ==> loaded@.contains(#[trigger] plan.regenerate@[k]),
        forall|j: int| 0 <= j < dirty@.len() && loaded@.contains(#[trigger] dirty@[j])
            ==> plan.regenerate@.contains(dirty@[j]) || plan.remaining@.contains(dirty@[j]),
{
    let ghost goal = dirty_from(dirty@, loaded@, 0, Seq::empty());
    proof {
        lemma_dirty_from(dirty@, loaded@, 0, Seq::empty());
    }
    let mut regenerate: Vec<ChunkCoord> = Vec::new();
    let mut i: usize = 0;
    while i < dirty.len() && regenerate.len() < MAX_DIRTY_PER_FRAME
        invariant
            i <= dirty@.len(),
            regenerate@.len() <= MAX_DIRTY_PER_FRAME,
            dirty_from(dirty@, loaded@, i as int, regenerate@) == goal,
        decreases dirty.len() - i,
    {
        let c = dirty[i];
        if contains_chunk(loaded, c) {
            regenerate.push(c);
        }
        i = i + 1;
    }
    let mut remaining: Vec<ChunkCoord> = Vec::new();
    let start = i;
    while i < dirty.len()
        invariant
            start <= i <= dirty@.len(),
            remaining@ == dirty@.subrange(start as int, i as int),
        decreases dirty.len() - i,
    {
        remaining.push(dirty[i]);
        proof {
            assert(remaining@ =~= dirty@.subrange(start as int, i as int + 1));
        }
        i = i + 1;
    }
    proof {
        let r = goal;
        assert(r.1 == start);
        assert forall|j: int| 0 <= j < dirty@.len() && loaded@.contains(#[trigger] dirty@[j])
            implies regenerate@.contains(dirty@[j]) || remaining@.contains(dirty@[j]) by {
            if j >= start {
                assert(remaining@[j - start] == dirty@[j]);
            }
        }
    }
    DirtyPlan { regenerate, remaining }
}

/// The dirty chunks left for the next frame after one frame's plan.
pub open spec fn dirty_left(dirty: Seq<ChunkCoord>, loaded: Seq<ChunkCoord>) -> Seq<ChunkCoord> {
    dirty.subrange(dirty_from(dirty, loaded, 0, Seq::empty()).1, dirty.len() as int)
}

/// The chunks one frame's plan meshes again.
pub open spec fn dirty_regenerated(dirty: Seq<ChunkCoord>, loaded: Seq<ChunkCoord>) -> Seq<ChunkCoord> {
    dirty_from(dirty, loaded, 0, Seq::empty()).0
}

/// The dirty list after `m` frames with no new dirty chunks.
pub open spec fn dirty_after(dirty: Seq<ChunkCoord>, loaded: Seq<ChunkCoord>, m: nat) -> Seq<ChunkCoord>
    decreases m,
{
    if m == 0 { dirty } else { dirty_left(dirty_after(dirty, loaded, (m - 1) as nat), loaded) }
}

/// With every chunk from `i` on loaded, the plan takes the next ones in order
/// until it has four.
proof fn lemma_dirty_all_loaded(dirty: Seq<ChunkCoord>, loaded: Seq<ChunkCoord>, i: int, taken: Seq<ChunkCoord>)
    requires
        0 <= i <= dirty.len(),
        taken.len() <= MAX_DIRTY_PER_FRAME,
        forall|j: int| i <= j < dirty.len() ==> loaded.contains(#[trigger] dirty[j]),
    ensures
        ({
            let e = if i + (MAX_DIRTY_PER_FRAME - taken.len()) < dirty.len() {
                i + (MAX_DIRTY_PER_FRAME - taken.len())
            } else {
                dirty.len() as int
            };
            dirty_from(dirty, loaded, i, taken) == (taken + dirty.subrange(i, e), e)
        }),
    decreases dirty.len() - i,
{
    if i >= dirty.len() || taken.len() >= MAX_DIRTY_PER_FRAME {
        assert(dirty.subrange(i, i) =~= Seq::<ChunkCoord>::empty());
        assert(taken + Seq::<ChunkCoord>::empty() =~= taken);
    } else {
        assert(loaded.contains(dirty[i]));
        lemma_dirty_all_loaded(dirty, loaded, i + 1, taken.push(dirty[i]));
        let e = if i + (MAX_DIRTY_PER_FRAME - taken.len()) < dirty.len() {
            i + (MAX_DIRTY_PER_FRAME - taken.len())
        } else {
            dirty.len() as int
        };
        assert(taken.push(dirty[i]) + dirty.subrange(i + 1, e) =~= taken + dirty.subrange(i, e));
    }
}

proof fn lemma_dirty_after(dirty: Seq<ChunkCoord>, loaded: Seq<ChunkCoord>, m: nat)
    requires
        forall|j: int| 0 <= j < dirty.len() ==> loaded.contains(#[trigger] dirty[j]),
    ensures
        dirty_after(dirty, loaded, m) == dirty.subrange(
            if 4 * m < dirty.len() { 4 * m as int } else { dirty.len() as int },
            dirty.len() as int,
        ),
    decreases m,
{
    if m > 0 {
        lemma_dirty_after(dirty, loaded, (m - 1) as nat);
        let prev = dirty_after(dirty, loaded, (m - 1) as nat);
        assert forall|j: int| 0 <= j < prev.len() implies loaded.contains(#[trigger] prev[j]) by {
            let s = if 4 * (m - 1) < dirty.len() { 4 * (m - 1) } else { dirty.len() as int };
            assert(prev[j] == dirty[s + j]);
        }
        lemma_dirty_all_loaded(prev, loaded, 0, Seq::empty());
        assert(dirty_left(prev, loaded) =~= dirty.subrange(
            if 4 * m < dirty.len() { 4 * m as int } else { dirty.len() as int },
            dirty.len() as int,
        ));
    }
}

/// With no new dirty chunks and all of them loaded, frame `c` meshes again
/// exactly the chunks `4c` to `4c + 3` of the list (those that exist), so all
/// `k` are done after `ceil(k / 4)` frames and nothing is left.
pub proof fn law_dirty_chunks_drain(dirty: Seq<ChunkCoord>, loaded: Seq<ChunkCoord>, c: nat)
    requires
        forall|j: int| 0 <= j < dirty.len() ==> loaded.contains(#[trigger] dirty[j]),
    ensures
        4 * c < dirty.len() ==> dirty_regenerated(dirty_after(dirty, loaded, c), loaded) == dirty.subrange(
            4 * c as int,
            if 4 * c + 4 < dirty.len() { (4 * c + 4) as int } else { dirty.len() as int },
        ),
        dirty_after(dirty, loaded, ((dirty.len() + 3) / 4) as nat).len() == 0,
{
    let k = dirty.len();
    lemma_dirty_after(dirty, loaded, c);
    let cur = dirty_after(dirty, loaded, c);
    if 4 * c < k {
        assert forall|j: int| 0 <= j < cur.len() implies loaded.contains(#[trigger] cur[j]) by {
            assert(cur[j] == dirty[4 * c + j]);
        }
        lemma_dirty_all_loaded(cur, loaded, 0, Seq::empty());
        assert(Seq::<ChunkCoord>::empty() + cur.subrange(0, if 4 < cur.len() { 4int } else { cur.len() as int }) =~= dirty.subrange(
            4 * c as int,
            if 4 * c + 4 < k { (4 * c + 4) as int } else { k as int },
        ));
    }
    let m = ((k + 3) / 4) as nat;
    lemma_dirty_after(dirty, loaded, m);
    assert(4 * m >= k);
}

proof fn lemma_missing_are_candidates(
    player: ChunkCoord,
    vd: int,
    loaded: Seq<ChunkCoord>,
    pending: Seq<ChunkCoord>,
    n: int,
)
    ensures
        forall|i: int| 0 <= i < missing_chunks(player, vd, loaded, pending, n).len() ==> exists|k: int|
            0 <= k < n && #[trigger] missing_chunks(player, vd, loaded, pending, n)[i] == spawn_candidate(player, vd, k),
    decreases n,
{
    if n > 0 {
        lemma_missing_are_candidates(player, vd, loaded, pending, n - 1);
        let prev = missing_chunks(player, vd, loaded, pending, n - 1);
        let cur = missing_chunks(player, vd, loaded, pending, n);
        assert forall|i: int| 0 <= i < cur.len() implies exists|k: int|
            0 <= k < n && #[trigger] cur[i] == spawn_candidate(player, vd, k) by {
            if i < prev.len() {
                assert(cur[i] == prev[i]);
                let k = choose|k: int| 0 <= k < n - 1 && prev[i] == spawn_candidate(player, vd, k);
                assert(0 <= k < n && cur[i] == spawn_candidate(player, vd, k));
            } else {
                assert(cur[i] == spawn_candidate(player, vd, n - 1));
            }
        }
    }
}

/// A chunk whose generation starts is never one that the unloading pass would
/// drop at the same player position: it lies within the view distance.
pub proof fn law_spawned_not_unloaded(
    player: ChunkCoord,
    view_distance: i32,
    loaded: Seq<ChunkCoord>,
    pending: Seq<ChunkCoord>,
)
    requires
        view_distance >= 0,
        player.x - view_distance >= i32::MIN && player.x + view_distance <= i32::MAX,
        player.z - view_distance >= i32::MIN && player.z + view_distance <= i32::MAX,
    ensures
        forall|i: int| 0 <= i < spec_chunks_to_spawn(player, view_distance, loaded, pending).len() ==>
            !spec_too_far(#[trigger] spec_chunks_to_spawn(player, view_distance, loaded, pending)[i], player, view_distance),
{
    let vd = view_distance as int;
    let side = 2 * vd + 1;
    let n = side * side;
    let m = missing_chunks(player, vd, loaded, pending, n);
    lemma_missing_are_candidates(player, vd, loaded, pending, n);
    let sp = spec_chunks_to_spawn(player, view_distance, loaded, pending);
    assert forall|i: int| 0 <= i < sp.len() implies !spec_too_far(#[trigger] sp[i], player, view_distance) by {
        assert(sp[i] == m[i]);
        let k = choose|k: int| 0 <= k < n && m[i] == spawn_candidate(player, vd, k);
        assert(0 <= k / side < side && 0 <= k % side < side) by (nonlinear_arith)
            requires
                0 <= k < side * side,
                side > 0;
    }
}

/// The chunk distance is a distance: zero exactly between equal coordinates,
/// the same both ways, at least each axis's difference, and equal to one of them.
pub proof fn law_chunk_distance(a: ChunkCoord, b: ChunkCoord)
    ensures
        spec_chunk_distance(a, b) == spec_chunk_distance(b, a),
        spec_chunk_distance(a, b) == 0 <==> a == b,
        spec_chunk_distance(a, b) >= abs_int(a.x - b.x),
        spec_chunk_distance(a, b) >= abs_int(a.z - b.z),
        spec_chunk_distance(a, b) == abs_int(a.x - b.x) || spec_chunk_distance(a, b) == abs_int(a.z - b.z),
{
}

} // verus!
