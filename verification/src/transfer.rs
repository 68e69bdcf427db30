//! Carrying out the planned belt hand-overs of one tick: which of several belts
//! feeding one belt may hand over (zipper merge), and what each hand-over does
//! to the belts, furnaces, crushers and the delivery storage.

use vstd::prelude::*;
use crate::conveyor::{allowed_source, sorted_ids_of, spec_plan_all, spec_zipper_pick, BeltState, TransferTarget};
use crate::geometry::Pos;
use crate::items::{spec_is_ore, spec_item_index, BlockType};
use crate::machines::{
    crusher_accept_from_conveyor, crusher_wf, furnace_accept_from_conveyor, furnace_wf, spec_crusher_can_add,
    spec_furnace_can_add_input, Crusher, Furnace, MACHINE_SLOT_LIMIT,
};
use crate::store::{ItemStore, ITEM_KINDS};

verus! {

/// A planned hand-over: (source belt, item index on it, target).
pub type Transfer = (usize, usize, TransferTarget);

/// The ids of the belts whose planned hand-overs go to belt `t`, in plan order
/// (a belt appears once per item it hands over).
pub open spec fn sources_for(actions: Seq<Transfer>, ids: Seq<u64>, t: usize) -> Seq<u64>
    decreases actions.len(),
{
    if actions.len() == 0 {
        Seq::empty()
    } else {
        let prev = sources_for(actions.drop_last(), ids, t);
        let a = actions.last();
        if a.2 == TransferTarget::Conveyor(t) { prev.push(ids[a.0 as int]) } else { prev }
    }
}

/// The belt allowed to hand over to belt `t` this tick, given the belts that
/// want to (see [`allowed_source`]).
pub open spec fn is_allowed_for(allowed: Option<u64>, sources: Seq<u64>, last_input: usize) -> bool {
    if sources.len() == 0 {
        allowed is None
    } else {
        exists|s: Seq<u64>| sorted_ids_of(s, sources) && s.len() > 0 && allowed == Some(#[trigger] spec_zipper_pick(s, last_input))
    }
}

/// For every belt, the source allowed to feed it this tick.
pub fn zipper_allowed(actions: &Vec<Transfer>, ids: &Vec<u64>, last_input: &Vec<usize>) -> (r: Vec<Option<u64>>)
    requires
        last_input@.len() == ids@.len(),
        forall|k: int| 0 <= k < actions@.len() ==> (#[trigger] actions@[k]).0 < ids@.len(),
    ensures
        r@.len() == ids@.len(),
        forall|t: int| 0 <= t < ids@.len() ==> is_allowed_for(#[trigger] r@[t], sources_for(actions@, ids@, t as usize), last_input@[t]),
{
    let mut r: Vec<Option<u64>> = Vec::new();
    let mut t: usize = 0;
    while t < ids.len()
        invariant
            t <= ids.len(),
            last_input@.len() == ids@.len(),
            forall|k: int| 0 <= k < actions@.len() ==> (#[trigger] actions@[k]).0 < ids@.len(),
            r@.len() == t,
            forall|u: int| 0 <= u < t ==> is_allowed_for(#[trigger] r@[u], sources_for(actions@, ids@, u as usize), last_input@[u]),
        decreases ids.len() - t,
    {
        let mut sources: Vec<u64> = Vec::new();
        let mut k: usize = 0;
        while k < actions.len()
            invariant
                k <= actions.len(),
                t < ids.len(),
                forall|j: int| 0 <= j < actions@.len() ==> (#[trigger] actions@[j]).0 < ids@.len(),
                sources@ == sources_for(actions@.take(k as int), ids@, t),
            decreases actions.len() - k,
        {
            let (b, _, target) = actions[k];
            proof {
                assert(actions@.take(k as int + 1).drop_last() =~= actions@.take(k as int));
                assert(actions@[k as int].0 < ids@.len());
            }
            if target == TransferTarget::Conveyor(t) {
                sources.push(ids[b]);
            }
            k = k + 1;
        }
        assert(actions@.take(k as int) =~= actions@);
        let a = allowed_source(&sources, last_input[t]);
        r.push(a);
        t = t + 1;
    }
    r
}

/// The belts, machines and storage a tick of hand-overs works on, and what it
/// leaves for the belts to take in afterwards.
pub struct BeltNetwork {
    /// The items on each belt, front to back as the belt lists them.
    pub belt_items: Vec<Vec<BlockType>>,
    pub belt_pos: Vec<Pos>,
    pub belt_ids: Vec<u64>,
    pub furnaces: Vec<Furnace>,
    pub crushers: Vec<Crusher>,
    pub store: ItemStore,
    /// Items handed to a belt this tick: (target belt, item, hand-over index),
    /// added to the target once every hand-over is done.
    pub arrivals: Vec<(usize, BlockType, usize)>,
    /// The belts that took an item this tick.
    pub received: Vec<bool>,
    /// The hand-overs that went through, by index, in order.
    pub taken: Vec<usize>,
}

/// The network's contents as mathematical values.
pub struct NetworkView {
    pub belt_items: Seq<Seq<BlockType>>,
    pub furnaces: Seq<Furnace>,
    pub crushers: Seq<Crusher>,
    pub store: Seq<u32>,
    pub arrivals: Seq<(usize, BlockType, usize)>,
    pub received: Seq<bool>,
    pub taken: Seq<usize>,
}

impl BeltNetwork {
    pub open spec fn view_net(&self) -> NetworkView {
        NetworkView {
            belt_items: self.belt_items@.map_values(|v: Vec<BlockType>| v@),
            furnaces: self.furnaces@,
            crushers: self.crushers@,
            store: self.store.counts@,
            arrivals: self.arrivals@,
            received: self.received@,
            taken: self.taken@,
        }
    }

    /// Every list agrees on the number of belts, storage is well formed, every
    /// machine position has neighbours within `i32`, and no two belts, no two
    /// furnaces and no two crushers stand at one position.
    pub open spec fn wf(&self) -> bool {
        &&& self.belt_pos@.len() == self.belt_items@.len()
        &&& forall|i: int, j: int| 0 <= i < j < self.belt_pos@.len() ==> self.belt_pos@[i] != self.belt_pos@[j]
        &&& forall|i: int, j: int| 0 <= i < j < self.furnaces@.len() ==> self.furnaces@[i].position != self.furnaces@[j].position
        &&& forall|i: int, j: int| 0 <= i < j < self.crushers@.len() ==> self.crushers@[i].position != self.crushers@[j].position
        &&& self.belt_ids@.len() == self.belt_items@.len()
        &&& self.received@.len() == self.belt_items@.len()
        &&& self.store.wf()
        &&& forall|i: int| 0 <= i < self.furnaces@.len() ==> (#[trigger] self.furnaces@[i]).position.interior()
        &&& forall|i: int| 0 <= i < self.crushers@.len() ==> (#[trigger] self.crushers@[i]).position.interior()
    }
}

/// The first furnace standing at `p`, from index `i` on.
pub open spec fn furnace_index_from(fs: Seq<Furnace>, p: Pos, i: int) -> Option<int>
    decreases fs.len() - i,
{
    if i < 0 || i >= fs.len() {
        None
    } else if fs[i].position == p {
        Some(i)
    } else {
        furnace_index_from(fs, p, i + 1)
    }
}

pub open spec fn crusher_index_from(cs: Seq<Crusher>, p: Pos, i: int) -> Option<int>
    decreases cs.len() - i,
{
    if i < 0 || i >= cs.len() {
        None
    } else if cs[i].position == p {
        Some(i)
    } else {
        crusher_index_from(cs, p, i + 1)
    }
}

/// A furnace takes a belt item coming from `source`: through its input port only,
/// coal into the fuel while there is room, smeltable ore into the input.
pub open spec fn furnace_takes(f: Furnace, source: Pos, item: BlockType) -> bool {
    source == f.position.spec_step(f.facing.spec_opposite()) && if item == BlockType::Coal {
        f.fuel < MACHINE_SLOT_LIMIT
    } else if spec_is_ore(item) {
        spec_furnace_can_add_input(f, item)
    } else {
        false
    }
}

pub open spec fn furnace_after_take(f: Furnace, item: BlockType) -> Furnace {
    if item == BlockType::Coal {
        Furnace { fuel: (f.fuel + 1) as u32, ..f }
    } else {
        Furnace { input_type: Some(item), input_count: (f.input_count + 1) as u32, ..f }
    }
}

pub open spec fn crusher_takes(c: Crusher, source: Pos, item: BlockType) -> bool {
    source == c.position.spec_step(c.facing.spec_opposite()) && spec_crusher_can_add(c, item)
}

pub open spec fn crusher_after_take(c: Crusher, item: BlockType) -> Crusher {
    Crusher { input_type: Some(item), input_count: (c.input_count + 1) as u32, ..c }
}

/// Storage after one more of `item` (saturating).
pub open spec fn stored_one(store: Seq<u32>, item: BlockType) -> Seq<u32> {
    let i = crate::items::spec_item_index(item) as int;
    store.update(i, if store[i] == u32::MAX { u32::MAX } else { (store[i] + 1) as u32 })
}

/// Belt `b` without its item `i`.
pub open spec fn without_item(items: Seq<Seq<BlockType>>, b: int, i: int) -> Seq<Seq<BlockType>> {
    items.update(b, items[b].remove(i))
}

/// What hand-over `k` (source belt `b`, item `i`, target `t`) does. An item that
/// is no longer there is passed over. To a belt: only the allowed source, and
/// only when the target has room at the joining point (`join_ok`); the item
/// leaves its belt and waits to be added to the target, which is marked as
/// having received. To a furnace or crusher: the first one at the position
/// takes it or not (see [`furnace_takes`], [`crusher_takes`]). To the platform:
/// one more of it in storage. A taken item leaves its belt.
pub open spec fn spec_transfer_step(
    s: NetworkView,
    pos: Seq<Pos>,
    ids: Seq<u64>,
    a: Transfer,
    k: usize,
    allowed: Seq<Option<u64>>,
    join_ok: bool,
) -> NetworkView {
    let (b, i, t) = a;
    if b >= s.belt_items.len() || i >= s.belt_items[b as int].len() {
        s
    } else {
        let item = s.belt_items[b as int][i as int];
        let from = pos[b as int];
        match t {
            TransferTarget::Conveyor(tb) => {
                if tb < allowed.len() && allowed[tb as int] == Some(ids[b as int]) && join_ok && tb < s.received.len() {
                    NetworkView {
                        belt_items: without_item(s.belt_items, b as int, i as int),
                        taken: s.taken.push(k),
                        arrivals: s.arrivals.push((tb, item, k)),
                        received: s.received.update(tb as int, true),
                        ..s
                    }
                } else {
                    s
                }
            },
            TransferTarget::Furnace(p) => match furnace_index_from(s.furnaces, p, 0) {
                Some(fi) => if furnace_takes(s.furnaces[fi], from, item) {
                    NetworkView {
                        belt_items: without_item(s.belt_items, b as int, i as int),
                        taken: s.taken.push(k),
                        furnaces: s.furnaces.update(fi, furnace_after_take(s.furnaces[fi], item)),
                        ..s
                    }
                } else {
                    s
                },
                None => s,
            },
            TransferTarget::Crusher(p) => match crusher_index_from(s.crushers, p, 0) {
                Some(ci) => if crusher_takes(s.crushers[ci], from, item) {
                    NetworkView {
                        belt_items: without_item(s.belt_items, b as int, i as int),
                        taken: s.taken.push(k),
                        crushers: s.crushers.update(ci, crusher_after_take(s.crushers[ci], item)),
                        ..s
                    }
                } else {
                    s
                },
                None => s,
            },
            TransferTarget::Delivery => NetworkView {
                belt_items: without_item(s.belt_items, b as int, i as int),
                taken: s.taken.push(k),
                store: stored_one(s.store, item),
                ..s
            },
        }
    }
}

fn remove_belt_item(belt_items: &mut Vec<Vec<BlockType>>, b: usize, i: usize)
    requires
        b < old(belt_items)@.len(),
        i < old(belt_items)@[b as int]@.len(),
    ensures
        final(belt_items)@.len() == old(belt_items)@.len(),
        final(belt_items)@.map_values(|v: Vec<BlockType>| v@)
            == without_item(old(belt_items)@.map_values(|v: Vec<BlockType>| v@), b as int, i as int),
{
    let ghost before = belt_items@.map_values(|v: Vec<BlockType>| v@);
    let mut v = belt_items.remove(b);
    let _ = v.remove(i);
    belt_items.insert(b, v);
    assert(belt_items@.map_values(|v: Vec<BlockType>| v@) =~= without_item(before, b as int, i as int));
}

fn find_furnace(fs: &Vec<Furnace>, p: Pos) -> (r: Option<usize>)
    ensures
        match r {
            Some(k) => furnace_index_from(fs@, p, 0) == Some(k as int) && k < fs@.len(),
            None => furnace_index_from(fs@, p, 0) is None,
        },
{
    let mut k: usize = 0;
    while k < fs.len()
        invariant
            k <= fs.len(),
            furnace_index_from(fs@, p, k as int) == furnace_index_from(fs@, p, 0),
        decreases fs.len() - k,
    {
        if fs[k].position == p {
            return Some(k);
        }
        k = k + 1;
    }
    None
}

fn find_crusher(cs: &Vec<Crusher>, p: Pos) -> (r: Option<usize>)
    ensures
        match r {
            Some(k) => crusher_index_from(cs@, p, 0) == Some(k as int) && k < cs@.len(),
            None => crusher_index_from(cs@, p, 0) is None,
        },
{
    let mut k: usize = 0;
    while k < cs.len()
        invariant
            k <= cs.len(),
            crusher_index_from(cs@, p, k as int) == crusher_index_from(cs@, p, 0),
        decreases cs.len() - k,
    {
        if cs[k].position == p {
            return Some(k);
        }
        k = k + 1;
    }
    None
}

/// Carry out hand-over `k` (see [`spec_transfer_step`]).
pub fn apply_transfer(net: &mut BeltNetwork, a: Transfer, k: usize, allowed: &Vec<Option<u64>>, join_ok: bool)
    requires
        old(net).wf(),
    ensures
        final(net).wf(),
        final(net).belt_pos@ == old(net).belt_pos@,
        final(net).belt_ids@ == old(net).belt_ids@,
        final(net).view_net() == spec_transfer_step(old(net).view_net(), old(net).belt_pos@, old(net).belt_ids@, a, k, allowed@, join_ok),
{
    let (b, i, t) = a;
    if b >= net.belt_items.len() || i >= net.belt_items[b].len() {
        return;
    }
    let item = net.belt_items[b][i];
    let from = net.belt_pos[b];
    match t {
        TransferTarget::Conveyor(tb) => {
            if tb < allowed.len() && allowed[tb] == Some(net.belt_ids[b]) && join_ok && tb < net.received.len() {
                remove_belt_item(&mut net.belt_items, b, i);
                net.taken.push(k);
                net.arrivals.push((tb, item, k));
                net.received.set(tb, true);
            }
        },
        TransferTarget::Furnace(p) => {
            if let Some(fi) = find_furnace(&net.furnaces, p) {
                let mut f = net.furnaces[fi];
                assert(net.furnaces@[fi as int].position.interior());
                if furnace_accept_from_conveyor(&mut f, from, item) {
                    net.furnaces.set(fi, f);
                    remove_belt_item(&mut net.belt_items, b, i);
                    net.taken.push(k);
                    proof {
                        assert forall|j: int| 0 <= j < net.furnaces@.len() implies (#[trigger] net.furnaces@[j]).position.interior() by {
                            if j != fi as int {
                                assert(net.furnaces@[j] == old(net).furnaces@[j]);
                            }
                        }
                    }
                }
            }
        },
        TransferTarget::Crusher(p) => {
            if let Some(ci) = find_crusher(&net.crushers, p) {
                let mut c = net.crushers[ci];
                assert(net.crushers@[ci as int].position.interior());
                if crusher_accept_from_conveyor(&mut c, from, item) {
                    net.crushers.set(ci, c);
                    remove_belt_item(&mut net.belt_items, b, i);
                    net.taken.push(k);
                    proof {
                        assert forall|j: int| 0 <= j < net.crushers@.len() implies (#[trigger] net.crushers@[j]).position.interior() by {
                            if j != ci as int {
                                assert(net.crushers@[j] == old(net).crushers@[j]);
                            }
                        }
                    }
                }
            }
        },
        TransferTarget::Delivery => {
            net.store.add_item(item, 1);
            remove_belt_item(&mut net.belt_items, b, i);
            net.taken.push(k);
            proof {
                let idx = crate::items::spec_item_index(item) as int;
                assert forall|j: int| 0 <= j < net.store.counts@.len() implies net.store.counts@[j] == stored_one(old(net).store.counts@, item)[j] by {
                    if j != idx {
                        let x = crate::store::item_at_index(j);
                        assert(crate::items::spec_item_index(x) == j);
                        assert(net.store.count(x) == old(net).store.count(x));
                    }
                }
                assert(net.store.counts@ =~= stored_one(old(net).store.counts@, item));
            }
        },
    }
}

/// The network after the first `n` hand-overs, in order.
pub open spec fn spec_apply_all(
    s: NetworkView,
    pos: Seq<Pos>,
    ids: Seq<u64>,
    actions: Seq<Transfer>,
    allowed: Seq<Option<u64>>,
    join_ok: Seq<bool>,
    n: int,
) -> NetworkView
    decreases n,
{
    if n <= 0 {
        s
    } else {
        spec_transfer_step(
            spec_apply_all(s, pos, ids, actions, allowed, join_ok, n - 1),
            pos,
            ids,
            actions[n - 1],
            (n - 1) as usize,
            allowed,
            join_ok[n - 1],
        )
    }
}

/// Carry out the tick's hand-overs in the given order. `join_ok[k]` tells
/// whether the target belt of hand-over `k` had room at its joining point when
/// the tick began.
pub fn apply_transfers(net: &mut BeltNetwork, actions: &Vec<Transfer>, allowed: &Vec<Option<u64>>, join_ok: &Vec<bool>)
    requires
        old(net).wf(),
        join_ok@.len() == actions@.len(),
    ensures
        final(net).wf(),
        final(net).belt_pos@ == old(net).belt_pos@,
        final(net).belt_ids@ == old(net).belt_ids@,
        final(net).view_net() == spec_apply_all(
            old(net).view_net(),
            old(net).belt_pos@,
            old(net).belt_ids@,
            actions@,
            allowed@,
            join_ok@,
            actions@.len() as int,
        ),
        machines_wf(old(net).view_net()) && store_room(old(net).store.counts@, actions@.len() as int) ==> forall|x: BlockType|
            #[trigger] items_in_network(final(net).view_net(), x) == items_in_network(old(net).view_net(), x),
{
    let ghost start = net.view_net();
    let mut k: usize = 0;
    while k < actions.len()
        invariant
            k <= actions.len(),
            join_ok@.len() == actions@.len(),
            net.wf(),
            net.belt_pos@ == old(net).belt_pos@,
            net.belt_ids@ == old(net).belt_ids@,
            start == old(net).view_net(),
            net.view_net() == spec_apply_all(start, net.belt_pos@, net.belt_ids@, actions@, allowed@, join_ok@, k as int),
        decreases actions.len() - k,
    {
        apply_transfer(net, actions[k], k, allowed, join_ok[k]);
        k = k + 1;
    }
    proof {
        if machines_wf(start) && store_room(start.store, actions@.len() as int) {
            assert forall|x: BlockType| #[trigger] items_in_network(net.view_net(), x) == items_in_network(start, x) by {
                law_transfers_conserve_items(
                    start,
                    old(net).belt_pos@,
                    old(net).belt_ids@,
                    actions@,
                    allowed@,
                    join_ok@,
                    actions@.len() as int,
                    x,
                );
            }
        }
    }
}

fn push_belt_item(belt_items: &mut Vec<Vec<BlockType>>, b: usize, item: BlockType)
    requires
        b < old(belt_items)@.len(),
    ensures
        final(belt_items)@.len() == old(belt_items)@.len(),
        final(belt_items)@.map_values(|v: Vec<BlockType>| v@)
            == old(belt_items)@.map_values(|v: Vec<BlockType>| v@).update(b as int, old(belt_items)@[b as int]@.push(item)),
{
    let ghost before = belt_items@.map_values(|v: Vec<BlockType>| v@);
    let mut v = belt_items.remove(b);
    v.push(item);
    belt_items.insert(b, v);
    assert(belt_items@.map_values(|v: Vec<BlockType>| v@) =~= before.update(b as int, before[b as int].push(item)));
}

/// The belts after the first `n` items on their way have been added to the end
/// of their target belts, in order.
pub open spec fn spec_land(items: Seq<Seq<BlockType>>, arrivals: Seq<(usize, BlockType, usize)>, n: int) -> Seq<Seq<BlockType>>
    decreases n,
{
    if n <= 0 {
        items
    } else {
        let prev = spec_land(items, arrivals, n - 1);
        let (tb, item, _) = arrivals[n - 1];
        if tb < prev.len() { prev.update(tb as int, prev[tb as int].push(item)) } else { prev }
    }
}

proof fn lemma_land_len(items: Seq<Seq<BlockType>>, arrivals: Seq<(usize, BlockType, usize)>, n: int)
    ensures
        spec_land(items, arrivals, n).len() == items.len(),
    decreases n,
{
    if n > 0 {
        lemma_land_len(items, arrivals, n - 1);
    }
}

/// End of a tick: every item handed to a belt joins the end of that belt, in
/// the order handed over, and nothing is on its way any more. With every
/// target a belt of the network, no item is made or lost.
pub fn land_arrivals(net: &mut BeltNetwork)
    requires
        old(net).wf(),
    ensures
        final(net).wf(),
        final(net).belt_pos@ == old(net).belt_pos@,
        final(net).belt_ids@ == old(net).belt_ids@,
        final(net).view_net() == (NetworkView {
            belt_items: spec_land(old(net).view_net().belt_items, old(net).arrivals@, old(net).arrivals@.len() as int),
            arrivals: Seq::empty(),
            ..old(net).view_net()
        }),
        (forall|k: int| 0 <= k < old(net).arrivals@.len() ==> (#[trigger] old(net).arrivals@[k]).0 < old(net).belt_items@.len())
            ==> forall|x: BlockType| #[trigger] items_in_network(final(net).view_net(), x) == items_in_network(old(net).view_net(), x),
{
    let ghost start = net.view_net();
    let ghost arr = net.arrivals@;
    let ghost all_in = forall|k: int| 0 <= k < arr.len() ==> (#[trigger] arr[k]).0 < start.belt_items.len();
    let mut k: usize = 0;
    while k < net.arrivals.len()
        invariant
            k <= arr.len(),
            net.arrivals@ == arr,
            net.wf(),
            net.belt_pos@ == old(net).belt_pos@,
            net.belt_ids@ == old(net).belt_ids@,
            start == old(net).view_net(),
            arr == old(net).arrivals@,
            net.view_net() == (NetworkView { belt_items: spec_land(start.belt_items, arr, k as int), ..start }),
            all_in == (forall|j: int| 0 <= j < arr.len() ==> (#[trigger] arr[j]).0 < start.belt_items.len()),
            all_in ==> forall|x: BlockType| #[trigger] belts_count(net.view_net().belt_items, x, start.belt_items.len() as int)
                == belts_count(start.belt_items, x, start.belt_items.len() as int) + arrivals_count(arr, x, k as int),
        decreases arr.len() - k,
    {
        let (tb, item, _) = net.arrivals[k];
        let ghost before = net.view_net().belt_items;
        proof {
            lemma_land_len(start.belt_items, arr, k as int);
        }
        if tb < net.belt_items.len() {
            push_belt_item(&mut net.belt_items, tb, item);
            proof {
                if all_in {
                    assert forall|x: BlockType| #[trigger] belts_count(net.view_net().belt_items, x, start.belt_items.len() as int)
                        == belts_count(start.belt_items, x, start.belt_items.len() as int) + arrivals_count(arr, x, k as int + 1) by {
                        broadcast use vstd::multiset::group_multiset_axioms;
                        lemma_belts_update(before, tb as int, before[tb as int].push(item), x, start.belt_items.len() as int);
                        vstd::seq_lib::to_multiset_build(before[tb as int], item);
                    }
                }
            }
        } else {
            proof {
                if all_in {
                    assert(arr[k as int].0 < start.belt_items.len());
                }
            }
        }
        k = k + 1;
    }
    let ghost landed = net.view_net().belt_items;
    proof {
        lemma_land_len(start.belt_items, arr, arr.len() as int);
    }
    net.arrivals = Vec::new();
    proof {
        assert(net.view_net().belt_items == landed);
        if all_in {
            assert forall|x: BlockType| #[trigger] items_in_network(net.view_net(), x) == items_in_network(start, x) by {
                assert(belts_count(landed, x, start.belt_items.len() as int)
                    == belts_count(start.belt_items, x, start.belt_items.len() as int) + arrivals_count(arr, x, arr.len() as int));
                assert(landed.len() == start.belt_items.len());
                assert(arrivals_count(net.view_net().arrivals, x, 0) == 0);
            }
        }
    }
}

/// Where a hand-over with item index `key` goes among already ordered ones:
/// after every one with an index at least as high, from position `i` on.
pub open spec fn insert_point(s: Seq<Transfer>, key: usize, i: int) -> int
    decreases s.len() - i,
{
    if i < 0 || i >= s.len() {
        s.len() as int
    } else if s[i].1 < key {
        i
    } else {
        insert_point(s, key, i + 1)
    }
}

/// The first `n` hand-overs ordered by item index, highest first; hand-overs
/// with equal indices keep their order.
pub open spec fn spec_order(actions: Seq<Transfer>, n: int) -> Seq<Transfer>
    decreases n,
{
    if n <= 0 {
        Seq::empty()
    } else {
        let s = spec_order(actions, n - 1);
        s.insert(insert_point(s, actions[n - 1].1, 0), actions[n - 1])
    }
}

proof fn lemma_insert_point(s: Seq<Transfer>, key: usize, i: int)
    requires
        0 <= i <= s.len(),
    ensures
        i <= insert_point(s, key, i) <= s.len(),
        forall|j: int| i <= j < insert_point(s, key, i) ==> s[j].1 >= key,
        insert_point(s, key, i) < s.len() ==> s[insert_point(s, key, i)].1 < key,
    decreases s.len() - i,
{
    if i < s.len() && s[i].1 >= key {
        lemma_insert_point(s, key, i + 1);
    }
}

/// Order the hand-overs so that items further along a belt go first: removing
/// them then leaves the positions of the others unchanged (see [`spec_order`]).
pub fn order_transfers(actions: &Vec<Transfer>) -> (r: Vec<Transfer>)
    ensures
        r@ == spec_order(actions@, actions@.len() as int),
{
    let mut r: Vec<Transfer> = Vec::new();
    let mut n: usize = 0;
    while n < actions.len()
        invariant
            n <= actions.len(),
            r@ == spec_order(actions@, n as int),
        decreases actions.len() - n,
    {
        let a = actions[n];
        let mut j: usize = 0;
        while j < r.len() && r[j].1 >= a.1
            invariant
                j <= r.len(),
                insert_point(r@, a.1, j as int) == insert_point(r@, a.1, 0),
            decreases r.len() - j,
        {
            j = j + 1;
        }
        proof {
            assert(insert_point(r@, a.1, j as int) == j);
        }
        r.insert(j, a);
        n = n + 1;
    }
    r
}

/// The ordered hand-overs run from the highest item index down, and are the
/// planned ones, each as often as planned.
pub proof fn law_order_sorted(actions: Seq<Transfer>, n: int)
    requires
        0 <= n <= actions.len(),
    ensures
        forall|i: int, j: int| 0 <= i < j < spec_order(actions, n).len() ==> spec_order(actions, n)[i].1 >= spec_order(actions, n)[j].1,
        spec_order(actions, n).to_multiset() =~= actions.take(n).to_multiset(),
    decreases n,
{
    broadcast use vstd::multiset::group_multiset_axioms;
    if n > 0 {
        law_order_sorted(actions, n - 1);
        let s = spec_order(actions, n - 1);
        let a = actions[n - 1];
        let p = insert_point(s, a.1, 0);
        lemma_insert_point(s, a.1, 0);
        let r = s.insert(p, a);
        assert forall|i: int, j: int| 0 <= i < j < r.len() implies r[i].1 >= r[j].1 by {
            if j < p {
                assert(r[i] == s[i] && r[j] == s[j]);
            } else if j == p {
                assert(r[i] == s[i]);
            } else if i < p {
                assert(r[i] == s[i] && r[j] == s[j - 1]);
            } else if i == p {
                assert(r[j] == s[j - 1]);
                assert(s[p].1 < a.1);
                if j - 1 > p {
                    assert(s[p].1 >= s[j - 1].1);
                }
            } else {
                assert(r[i] == s[i - 1] && r[j] == s[j - 1]);
            }
        }
        vstd::seq_lib::to_multiset_insert(s, p, a);
        assert(actions.take(n) =~= actions.take(n - 1).push(a));
        vstd::seq_lib::to_multiset_build(actions.take(n - 1), a);
    } else {
        assert(actions.take(n) =~= spec_order(actions, n));
    }
}

/// Every belt that took an item this tick moves its input counter on by one,
/// so the next tick lets the next feeding belt go first.
pub fn finish_transfers(last_input: &mut Vec<usize>, received: &Vec<bool>)
    requires
        old(last_input)@.len() == received@.len(),
        forall|t: int| 0 <= t < received@.len() && #[trigger] received@[t] ==> old(last_input)@[t] < usize::MAX,
    ensures
        final(last_input)@.len() == old(last_input)@.len(),
        forall|t: int| 0 <= t < received@.len() ==> #[trigger] final(last_input)@[t]
            == (if received@[t] { (old(last_input)@[t] + 1) as usize } else { old(last_input)@[t] }),
{
    let ghost start = last_input@;
    let mut t: usize = 0;
    while t < received.len()
        invariant
            t <= received.len(),
            last_input@.len() == received@.len(),
            start == old(last_input)@,
            forall|u: int| 0 <= u < received@.len() && #[trigger] received@[u] ==> start[u] < usize::MAX,
            forall|u: int| 0 <= u < t ==> #[trigger] last_input@[u] == (if received@[u] { (start[u] + 1) as usize } else { start[u] }),
            forall|u: int| t <= u < received@.len() ==> #[trigger] last_input@[u] == start[u],
        decreases received.len() - t,
    {
        if received[t] {
            let v = last_input[t];
            last_input.set(t, v + 1);
        }
        t = t + 1;
    }
}

/// A hand-over that goes through removes exactly its item from its belt and
/// puts it where it went; items are never made or lost on the way to a belt or
/// the platform.
pub proof fn law_transfer_moves_one(
    s: NetworkView,
    pos: Seq<Pos>,
    ids: Seq<u64>,
    a: Transfer,
    k: usize,
    allowed: Seq<Option<u64>>,
    join_ok: bool,
)
    requires
        a.0 < s.belt_items.len(),
        a.1 < s.belt_items[a.0 as int].len(),
    ensures
        ({
            let r = spec_transfer_step(s, pos, ids, a, k, allowed, join_ok);
            let item = s.belt_items[a.0 as int][a.1 as int];
            &&& r.belt_items.len() == s.belt_items.len()
            &&& r.taken.len() != s.taken.len() ==> r.taken == s.taken.push(k)
                && r.belt_items[a.0 as int] == s.belt_items[a.0 as int].remove(a.1 as int)
                && r.belt_items[a.0 as int].len() + 1 == s.belt_items[a.0 as int].len()
            &&& r.taken.len() == s.taken.len() ==> r.belt_items == s.belt_items && r.taken == s.taken
            &&& a.2 is Conveyor && r.taken.len() != s.taken.len() ==> r.arrivals == s.arrivals.push((a.2->Conveyor_0, item, k))
            &&& a.2 is Delivery ==> r.belt_items[a.0 as int] == s.belt_items[a.0 as int].remove(a.1 as int)
                && r.store == stored_one(s.store, item)
        }),
{
}

/// How many of `x` a belt carries.
pub open spec fn belt_count(items: Seq<BlockType>, x: BlockType) -> nat {
    items.to_multiset().count(x)
}

/// How many of `x` the first `n` belts carry.
pub open spec fn belts_count(b: Seq<Seq<BlockType>>, x: BlockType, n: int) -> int
    decreases n,
{
    if n <= 0 { 0 } else { belts_count(b, x, n - 1) + belt_count(b[n - 1], x) }
}

/// How many of `x` the first `n` items on their way to a belt are.
pub open spec fn arrivals_count(a: Seq<(usize, BlockType, usize)>, x: BlockType, n: int) -> int
    decreases n,
{
    if n <= 0 { 0 } else { arrivals_count(a, x, n - 1) + (if a[n - 1].1 == x { 1int } else { 0 }) }
}

/// How many of `x` a furnace holds as fuel or input.
pub open spec fn furnace_amount(f: Furnace, x: BlockType) -> int {
    (if x == BlockType::Coal { f.fuel as int } else { 0 }) + (if f.input_type == Some(x) { f.input_count as int } else { 0 })
}

pub open spec fn furnaces_count(fs: Seq<Furnace>, x: BlockType, n: int) -> int
    decreases n,
{
    if n <= 0 { 0 } else { furnaces_count(fs, x, n - 1) + furnace_amount(fs[n - 1], x) }
}

/// How many of `x` a crusher holds as input.
pub open spec fn crusher_amount(c: Crusher, x: BlockType) -> int {
    if c.input_type == Some(x) { c.input_count as int } else { 0 }
}

pub open spec fn crushers_count(cs: Seq<Crusher>, x: BlockType, n: int) -> int
    decreases n,
{
    if n <= 0 { 0 } else { crushers_count(cs, x, n - 1) + crusher_amount(cs[n - 1], x) }
}

/// Every item of kind `x` that hand-overs can move: on the belts, on its way to
/// a belt, in furnace fuel and inputs, in crusher inputs, and in storage.
pub open spec fn items_in_network(s: NetworkView, x: BlockType) -> int {
    belts_count(s.belt_items, x, s.belt_items.len() as int) + arrivals_count(s.arrivals, x, s.arrivals.len() as int)
        + furnaces_count(s.furnaces, x, s.furnaces.len() as int) + crushers_count(s.crushers, x, s.crushers.len() as int)
        + s.store[spec_item_index(x) as int]
}

/// Every furnace and crusher is well formed.
pub open spec fn machines_wf(s: NetworkView) -> bool {
    &&& forall|i: int| 0 <= i < s.furnaces.len() ==> furnace_wf(#[trigger] s.furnaces[i])
    &&& forall|i: int| 0 <= i < s.crushers.len() ==> crusher_wf(#[trigger] s.crushers[i])
}

/// Storage has a count for every kind, each with room for `m` more.
pub open spec fn store_room(store: Seq<u32>, m: int) -> bool {
    &&& store.len() == ITEM_KINDS
    &&& forall|j: int| 0 <= j < store.len() ==> #[trigger] store[j] + m <= u32::MAX
}

proof fn lemma_belts_update(b: Seq<Seq<BlockType>>, j: int, v: Seq<BlockType>, x: BlockType, n: int)
    requires
        0 <= n <= b.len(),
        0 <= j < b.len(),
    ensures
        belts_count(b.update(j, v), x, n) == belts_count(b, x, n) + (if j < n { belt_count(v, x) - belt_count(b[j], x) } else { 0 }),
    decreases n,
{
    if n > 0 {
        lemma_belts_update(b, j, v, x, n - 1);
    }
}

proof fn lemma_furnaces_update(fs: Seq<Furnace>, j: int, v: Furnace, x: BlockType, n: int)
    requires
        0 <= n <= fs.len(),
        0 <= j < fs.len(),
    ensures
        furnaces_count(fs.update(j, v), x, n) == furnaces_count(fs, x, n) + (if j < n { furnace_amount(v, x) - furnace_amount(fs[j], x) } else { 0 }),
    decreases n,
{
    if n > 0 {
        lemma_furnaces_update(fs, j, v, x, n - 1);
    }
}

proof fn lemma_crushers_update(cs: Seq<Crusher>, j: int, v: Crusher, x: BlockType, n: int)
    requires
        0 <= n <= cs.len(),
        0 <= j < cs.len(),
    ensures
        crushers_count(cs.update(j, v), x, n) == crushers_count(cs, x, n) + (if j < n { crusher_amount(v, x) - crusher_amount(cs[j], x) } else { 0 }),
    decreases n,
{
    if n > 0 {
        lemma_crushers_update(cs, j, v, x, n - 1);
    }
}

proof fn lemma_arrivals_push(a: Seq<(usize, BlockType, usize)>, e: (usize, BlockType, usize), x: BlockType, n: int)
    requires
        0 <= n <= a.len(),
    ensures
        arrivals_count(a.push(e), x, n) == arrivals_count(a, x, n),
    decreases n,
{
    if n > 0 {
        lemma_arrivals_push(a, e, x, n - 1);
    }
}

proof fn lemma_remove_count(s: Seq<BlockType>, i: int, x: BlockType)
    requires
        0 <= i < s.len(),
    ensures
        belt_count(s.remove(i), x) == belt_count(s, x) - (if s[i] == x { 1int } else { 0 }),
{
    broadcast use vstd::multiset::group_multiset_axioms;
    vstd::seq_lib::to_multiset_remove(s, i);
    vstd::seq_lib::to_multiset_contains(s, s[i]);
    assert(s.contains(s[i]));
}

proof fn lemma_index_injective(a: BlockType, b: BlockType)
    ensures
        spec_item_index(a) == spec_item_index(b) ==> a == b,
{
}

/// One hand-over neither makes nor loses items: for every kind, what is on the
/// belts, on its way to a belt, in furnaces, in crushers and in storage stays
/// the same (storage must have room for the item).
proof fn lemma_step_conserves(
    s: NetworkView,
    pos: Seq<Pos>,
    ids: Seq<u64>,
    a: Transfer,
    k: usize,
    allowed: Seq<Option<u64>>,
    join_ok: bool,
    x: BlockType,
    m: int,
)
    requires
        machines_wf(s),
        m >= 1,
        store_room(s.store, m),
    ensures
        ({
            let r = spec_transfer_step(s, pos, ids, a, k, allowed, join_ok);
            &&& items_in_network(r, x) == items_in_network(s, x)
            &&& machines_wf(r)
            &&& store_room(r.store, m - 1)
        }),
{
    let r = spec_transfer_step(s, pos, ids, a, k, allowed, join_ok);
    let (b, i, t) = a;
    let nb = s.belt_items.len() as int;
    if b >= s.belt_items.len() || i >= s.belt_items[b as int].len() {
        assert(r == s);
        return;
    }
    let item = s.belt_items[b as int][i as int];
    lemma_index_injective(item, x);
    if r.taken.len() != s.taken.len() {
        lemma_belts_update(s.belt_items, b as int, s.belt_items[b as int].remove(i as int), x, nb);
        lemma_remove_count(s.belt_items[b as int], i as int, x);
    }
    match t {
        TransferTarget::Conveyor(tb) => {
            if r.taken.len() != s.taken.len() {
                lemma_arrivals_push(s.arrivals, (tb, item, k), x, s.arrivals.len() as int);
            } else {
                assert(r == s);
            }
        },
        TransferTarget::Furnace(p) => {
            match furnace_index_from(s.furnaces, p, 0) {
                Some(fi) => {
                    lemma_furnace_index(s.furnaces, p, 0);
                    if furnace_takes(s.furnaces[fi], pos[b as int], item) {
                        let f = s.furnaces[fi];
                        let g = furnace_after_take(f, item);
                        assert(furnace_wf(f));
                        lemma_furnaces_update(s.furnaces, fi, g, x, s.furnaces.len() as int);
                        assert forall|j: int| 0 <= j < r.furnaces.len() implies furnace_wf(#[trigger] r.furnaces[j]) by {
                            if j != fi {
                                assert(r.furnaces[j] == s.furnaces[j]);
                            }
                        }
                    } else {
                        assert(r == s);
                    }
                },
                None => {
                    assert(r == s);
                },
            }
        },
        TransferTarget::Crusher(p) => {
            match crusher_index_from(s.crushers, p, 0) {
                Some(ci) => {
                    lemma_crusher_index(s.crushers, p, 0);
                    if crusher_takes(s.crushers[ci], pos[b as int], item) {
                        let c = s.crushers[ci];
                        let g = crusher_after_take(c, item);
                        assert(crusher_wf(c));
                        lemma_crushers_update(s.crushers, ci, g, x, s.crushers.len() as int);
                        assert forall|j: int| 0 <= j < r.crushers.len() implies crusher_wf(#[trigger] r.crushers[j]) by {
                            if j != ci {
                                assert(r.crushers[j] == s.crushers[j]);
                            }
                        }
                    } else {
                        assert(r == s);
                    }
                },
                None => {
                    assert(r == s);
                },
            }
        },
        TransferTarget::Delivery => {
            let ii = spec_item_index(item) as int;
            assert(s.store[ii] + m <= u32::MAX);
            assert forall|j: int| 0 <= j < r.store.len() implies #[trigger] r.store[j] + (m - 1) <= u32::MAX by {
                assert(s.store[j] + m <= u32::MAX);
            }
        },
    }
}

proof fn lemma_furnace_index(fs: Seq<Furnace>, p: Pos, i: int)
    requires
        0 <= i,
    ensures
        furnace_index_from(fs, p, i) matches Some(k) ==> i <= k < fs.len(),
    decreases fs.len() - i,
{
    if i < fs.len() && fs[i].position != p {
        lemma_furnace_index(fs, p, i + 1);
    }
}

proof fn lemma_crusher_index(cs: Seq<Crusher>, p: Pos, i: int)
    requires
        0 <= i,
    ensures
        crusher_index_from(cs, p, i) matches Some(k) ==> i <= k < cs.len(),
    decreases cs.len() - i,
{
    if i < cs.len() && cs[i].position != p {
        lemma_crusher_index(cs, p, i + 1);
    }
}

/// A tick of hand-overs neither makes nor loses items: for every kind, the
/// count on the belts, on its way to a belt, in furnace fuel and inputs, in
/// crusher inputs and in storage is the same after the first `n` hand-overs as
/// before (storage having room for `n` more of each kind, so nothing saturates).
pub proof fn law_transfers_conserve_items(
    s: NetworkView,
    pos: Seq<Pos>,
    ids: Seq<u64>,
    actions: Seq<Transfer>,
    allowed: Seq<Option<u64>>,
    join_ok: Seq<bool>,
    n: int,
    x: BlockType,
)
    requires
        0 <= n <= actions.len(),
        machines_wf(s),
        store_room(s.store, n),
    ensures
        items_in_network(spec_apply_all(s, pos, ids, actions, allowed, join_ok, n), x) == items_in_network(s, x),
        machines_wf(spec_apply_all(s, pos, ids, actions, allowed, join_ok, n)),
        store_room(spec_apply_all(s, pos, ids, actions, allowed, join_ok, n).store, 0),
    decreases n,
{
    if n > 0 {
        law_transfers_conserve_items(s, pos, ids, actions, allowed, join_ok, n - 1, x);
        let prev = spec_apply_all(s, pos, ids, actions, allowed, join_ok, n - 1);
        lemma_store_room_more(s, pos, ids, actions, allowed, join_ok, n - 1, n);
        lemma_step_conserves(prev, pos, ids, actions[n - 1], (n - 1) as usize, allowed, join_ok[n - 1], x, 1);
    }
}

/// After `i` hand-overs, storage that had room for `m` more has room for `m - i`.
proof fn lemma_store_room_more(
    s: NetworkView,
    pos: Seq<Pos>,
    ids: Seq<u64>,
    actions: Seq<Transfer>,
    allowed: Seq<Option<u64>>,
    join_ok: Seq<bool>,
    i: int,
    m: int,
)
    requires
        0 <= i <= m,
        i <= actions.len(),
        machines_wf(s),
        store_room(s.store, m),
    ensures
        store_room(spec_apply_all(s, pos, ids, actions, allowed, join_ok, i).store, m - i),
        machines_wf(spec_apply_all(s, pos, ids, actions, allowed, join_ok, i)),
    decreases i,
{
    if i > 0 {
        lemma_store_room_more(s, pos, ids, actions, allowed, join_ok, i - 1, m);
        let prev = spec_apply_all(s, pos, ids, actions, allowed, join_ok, i - 1);
        lemma_step_conserves(prev, pos, ids, actions[i - 1], (i - 1) as usize, allowed, join_ok[i - 1], BlockType::Coal, m - i + 1);
    }
}

/// Landing the first `n` items on their way: the belts together gain exactly
/// those items, when every target is one of the belts.
proof fn lemma_land_counts(items: Seq<Seq<BlockType>>, arr: Seq<(usize, BlockType, usize)>, x: BlockType, n: int)
    requires
        0 <= n <= arr.len(),
        forall|k: int| 0 <= k < arr.len() ==> (#[trigger] arr[k]).0 < items.len(),
    ensures
        spec_land(items, arr, n).len() == items.len(),
        belts_count(spec_land(items, arr, n), x, items.len() as int) == belts_count(items, x, items.len() as int) + arrivals_count(arr, x, n),
    decreases n,
{
    broadcast use vstd::multiset::group_multiset_axioms;
    if n > 0 {
        lemma_land_counts(items, arr, x, n - 1);
        let prev = spec_land(items, arr, n - 1);
        let (tb, item, _) = arr[n - 1];
        assert(arr[n - 1].0 < items.len());
        lemma_belts_update(prev, tb as int, prev[tb as int].push(item), x, items.len() as int);
        vstd::seq_lib::to_multiset_build(prev[tb as int], item);
    }
}

/// Hand-overs keep the number of belts and of received flags, and every item on
/// its way targets one of the belts.
proof fn lemma_apply_all_shape(
    s: NetworkView,
    pos: Seq<Pos>,
    ids: Seq<u64>,
    actions: Seq<Transfer>,
    allowed: Seq<Option<u64>>,
    join_ok: Seq<bool>,
    n: int,
)
    requires
        0 <= n <= actions.len(),
        s.received.len() == s.belt_items.len(),
        forall|k: int| 0 <= k < s.arrivals.len() ==> (#[trigger] s.arrivals[k]).0 < s.belt_items.len(),
    ensures
        ({
            let r = spec_apply_all(s, pos, ids, actions, allowed, join_ok, n);
            &&& r.belt_items.len() == s.belt_items.len()
            &&& r.received.len() == s.belt_items.len()
            &&& forall|k: int| 0 <= k < r.arrivals.len() ==> (#[trigger] r.arrivals[k]).0 < s.belt_items.len()
        }),
    decreases n,
{
    if n > 0 {
        lemma_apply_all_shape(s, pos, ids, actions, allowed, join_ok, n - 1);
        let prev = spec_apply_all(s, pos, ids, actions, allowed, join_ok, n - 1);
        let r = spec_apply_all(s, pos, ids, actions, allowed, join_ok, n);
        assert forall|k: int| 0 <= k < r.arrivals.len() implies (#[trigger] r.arrivals[k]).0 < s.belt_items.len() by {
            if k < prev.arrivals.len() {
                assert(r.arrivals[k] == prev.arrivals[k]);
            }
        }
    }
}

/// One whole belt tick: plan the hand-overs of every belt, order them (items
/// furthest along first), carry them out with the merges the zipper allows and
/// the joins that have room, and land the items handed to belts on their ends.
pub open spec fn spec_tick(
    s: NetworkView,
    pos: Seq<Pos>,
    ids: Seq<u64>,
    belts: Seq<BeltState>,
    at_end: Seq<Seq<bool>>,
    platform: Option<(Pos, Pos)>,
    furnace_pos: Seq<Pos>,
    crusher_pos: Seq<Pos>,
    allowed: Seq<Option<u64>>,
    join_ok: Seq<bool>,
) -> NetworkView {
    let plan = spec_plan_all(belts, at_end, platform, pos, furnace_pos, crusher_pos, belts.len() as int).0;
    let actions = spec_order(plan, plan.len() as int);
    let mid = spec_apply_all(s, pos, ids, actions, allowed, join_ok, actions.len() as int);
    NetworkView { belt_items: spec_land(mid.belt_items, mid.arrivals, mid.arrivals.len() as int), arrivals: Seq::empty(), ..mid }
}

/// A whole belt tick neither makes nor loses items: for every kind, the count
/// on the belts, in furnace fuel and inputs, in crusher inputs and in storage
/// is the same after planning, ordering, the merges, the hand-overs and the
/// landing as before, whatever the zipper allows and whichever joins have
/// room. Every item leaving a belt goes to exactly one of another belt, a
/// furnace, a crusher or storage. (Storage must have room for one more item per
/// planned hand-over, since its counters stop at their maximum.)
pub proof fn law_tick_conserves_items(
    s: NetworkView,
    pos: Seq<Pos>,
    ids: Seq<u64>,
    belts: Seq<BeltState>,
    at_end: Seq<Seq<bool>>,
    platform: Option<(Pos, Pos)>,
    furnace_pos: Seq<Pos>,
    crusher_pos: Seq<Pos>,
    allowed: Seq<Option<u64>>,
    join_ok: Seq<bool>,
    x: BlockType,
)
    requires
        machines_wf(s),
        s.received.len() == s.belt_items.len(),
        s.arrivals.len() == 0,
        store_room(s.store, spec_plan_all(belts, at_end, platform, pos, furnace_pos, crusher_pos, belts.len() as int).0.len() as int),
    ensures
        items_in_network(spec_tick(s, pos, ids, belts, at_end, platform, furnace_pos, crusher_pos, allowed, join_ok), x)
            == items_in_network(s, x),
        machines_wf(spec_tick(s, pos, ids, belts, at_end, platform, furnace_pos, crusher_pos, allowed, join_ok)),
{
    let plan = spec_plan_all(belts, at_end, platform, pos, furnace_pos, crusher_pos, belts.len() as int).0;
    let actions = spec_order(plan, plan.len() as int);
    law_order_sorted(plan, plan.len() as int);
    assert(plan.take(plan.len() as int) =~= plan);
    vstd::seq_lib::to_multiset_len(actions);
    vstd::seq_lib::to_multiset_len(plan);
    assert(actions.len() == plan.len());
    let mid = spec_apply_all(s, pos, ids, actions, allowed, join_ok, actions.len() as int);
    law_transfers_conserve_items(s, pos, ids, actions, allowed, join_ok, actions.len() as int, x);
    lemma_apply_all_shape(s, pos, ids, actions, allowed, join_ok, actions.len() as int);
    lemma_land_counts(mid.belt_items, mid.arrivals, x, mid.arrivals.len() as int);
    let r = spec_tick(s, pos, ids, belts, at_end, platform, furnace_pos, crusher_pos, allowed, join_ok);
    assert(arrivals_count(r.arrivals, x, 0) == 0);
}

} // verus!
