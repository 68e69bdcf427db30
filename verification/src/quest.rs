//! Main quests: delivering the required items from storage completes the current
//! quest, and claiming its rewards puts them into storage and moves on.

use vstd::prelude::*;
use crate::items::BlockType;
use crate::store::ItemStore;

verus! {

/// One quest: what it asks for and what it gives.
pub struct QuestDef {
    pub id: String,
    pub description: String,
    pub required_items: Vec<(BlockType, u32)>,
    pub rewards: Vec<(BlockType, u32)>,
    pub unlocks: Vec<BlockType>,
}

/// The quest lists, built once.
pub struct QuestCache {
    pub main_quests: Vec<QuestDef>,
    pub sub_quests: Vec<QuestDef>,
}

/// Where the player stands in the main quest line.
#[derive(Clone, Copy, Debug, PartialEq, Eq, Structural)]
pub struct CurrentQuest {
    pub index: usize,
    pub completed: bool,
    pub rewards_claimed: bool,
}

/// Storage holds every required amount (each requirement checked on its own).
pub open spec fn spec_can_deliver(store: ItemStore, req: Seq<(BlockType, u32)>) -> bool {
    forall|i: int| 0 <= i < req.len() ==> store.count((#[trigger] req[i]).0) >= req[i].1
}

/// A quest lists each item at most once.
pub open spec fn distinct_items(req: Seq<(BlockType, u32)>) -> bool {
    forall|i: int, j: int| 0 <= i < req.len() && 0 <= j < req.len() && i != j ==> (#[trigger] req[i]).0 != (#[trigger] req[j]).0
}

/// How much of `item` the list asks for in total.
pub open spec fn amount_listed(req: Seq<(BlockType, u32)>, item: BlockType) -> nat
    decreases req.len(),
{
    if req.len() == 0 {
        0
    } else {
        amount_listed(req.drop_last(), item) + (if req.last().0 == item { req.last().1 as nat } else { 0 })
    }
}

pub fn can_deliver_from_global_inventory(store: &ItemStore, quest: &QuestDef) -> (r: bool)
    requires
        store.wf(),
    ensures
        r == spec_can_deliver(*store, quest.required_items@),
{
    let req = &quest.required_items;
    let mut i: usize = 0;
    while i < req.len()
        invariant
            i <= req.len(),
            store.wf(),
            req@ == quest.required_items@,
            forall|k: int| 0 <= k < i ==> store.count((#[trigger] req@[k]).0) >= req@[k].1,
        decreases req.len() - i,
    {
        let (item, need) = req[i];
        if store.get_count(item) < need {
            assert(store.count(req@[i as int].0) < req@[i as int].1);
            return false;
        }
        i = i + 1;
    }
    true
}

/// Mark the quest line done once the index has run past the last main quest.
pub fn quest_progress_check(q: &mut CurrentQuest, main_quest_count: usize)
    ensures
        *final(q) == (if !old(q).completed && old(q).index >= main_quest_count {
            CurrentQuest { completed: true, ..*old(q) }
        } else {
            *old(q)
        }),
{
    if q.completed {
        return;
    }
    if q.index >= main_quest_count {
        q.completed = true;
    }
}

proof fn lemma_remove_listed(before: ItemStore, after: ItemStore, req: Seq<(BlockType, u32)>, i: int, x: BlockType)
    requires
        0 <= i < req.len(),
    ensures
        amount_listed(req.take(i + 1), x) == amount_listed(req.take(i), x) + (if req[i].0 == x { req[i].1 as nat } else { 0 }),
{
    assert(req.take(i + 1).drop_last() =~= req.take(i));
}

/// Pressing the deliver button: when the current quest is not completed, exists,
/// and storage holds everything it asks for, the required items leave storage and
/// the quest is completed. Returns whether that happened.
pub fn quest_deliver(q: &mut CurrentQuest, store: &mut ItemStore, cache: &QuestCache, pressed: bool) -> (delivered: bool)
    requires
        old(store).wf(),
    ensures
        final(store).wf(),
        delivered == (pressed && !old(q).completed && old(q).index < cache.main_quests@.len()
            && spec_can_deliver(*old(store), cache.main_quests@[old(q).index as int].required_items@)),
        delivered ==> *final(q) == delivered_state(*old(q)),
        !delivered ==> *final(q) == *old(q) && final(store).counts@ == old(store).counts@,
        delivered && distinct_items(cache.main_quests@[old(q).index as int].required_items@) ==>
            forall|x: BlockType| #![trigger final(store).count(x)] final(store).count(x) + amount_listed(cache.main_quests@[old(q).index as int].required_items@, x) == old(store).count(x),
{
    if q.completed || q.index >= cache.main_quests.len() || !pressed {
        return false;
    }
    let quest = &cache.main_quests[q.index];
    if !can_deliver_from_global_inventory(store, quest) {
        return false;
    }
    let req = &quest.required_items;
    let ghost start = *store;
    let mut i: usize = 0;
    while i < req.len()
        invariant
            i <= req.len(),
            store.wf(),
            *req == cache.main_quests@[old(q).index as int].required_items,
            distinct_items(req@) ==> forall|k: int| i <= k < req.len() ==> store.count((#[trigger] req@[k]).0) >= req@[k].1,
            distinct_items(req@) ==> forall|x: BlockType| #![trigger store.count(x)] store.count(x) + amount_listed(req@.take(i as int), x) == start.count(x),
            spec_can_deliver(start, req@),
        decreases req.len() - i,
    {
        let (item, need) = req[i];
        let ghost before = *store;
        let _ = store.remove_item(item, need);
        proof {
            if distinct_items(req@) {
                assert forall|x: BlockType| #![trigger store.count(x)] store.count(x) + amount_listed(req@.take(i as int + 1), x) == start.count(x) by {
                    lemma_remove_listed(before, *store, req@, i as int, x);
                }
                assert forall|k: int| i + 1 <= k < req.len() implies store.count((#[trigger] req@[k]).0) >= req@[k].1 by {
                    assert(req@[k].0 != req@[i as int].0);
                }
            }
        }
        i = i + 1;
    }
    proof {
        assert(req@.take(i as int) =~= req@);
    }
    q.completed = true;
    true
}

/// Pressing Q: when the current quest is completed, its rewards not yet claimed,
/// and the command line closed, the rewards go into storage; unless it was the
/// last quest, the next one starts. Returns whether rewards were claimed.
pub fn quest_claim_rewards(
    q: &mut CurrentQuest,
    store: &mut ItemStore,
    cache: &QuestCache,
    q_pressed: bool,
    command_open: bool,
) -> (claimed: bool)
    requires
        old(store).wf(),
    ensures
        final(store).wf(),
        claimed == (!command_open && old(q).completed && !old(q).rewards_claimed && q_pressed
            && old(q).index < cache.main_quests@.len()),
        claimed ==> *final(q) == claimed_state(*old(q), cache.main_quests@.len()),
        claimed ==> forall|x: BlockType| #![trigger final(store).count(x)]
            final(store).count(x) >= old(store).count(x)
            && (old(store).count(x) + amount_listed(cache.main_quests@[old(q).index as int].rewards@, x) <= u32::MAX
                ==> final(store).count(x) == old(store).count(x) + amount_listed(cache.main_quests@[old(q).index as int].rewards@, x)),
        !claimed ==> *final(q) == *old(q) && final(store).counts@ == old(store).counts@,
{
    if command_open || !q.completed || q.rewards_claimed || !q_pressed || q.index >= cache.main_quests.len() {
        return false;
    }
    let rewards = &cache.main_quests[q.index].rewards;
    let ghost start = *store;
    let mut i: usize = 0;
    while i < rewards.len()
        invariant
            i <= rewards.len(),
            store.wf(),
            *rewards == cache.main_quests@[old(q).index as int].rewards,
            forall|x: BlockType| #![trigger store.count(x)] store.count(x) >= start.count(x)
                && (start.count(x) + amount_listed(rewards@.take(i as int), x) <= u32::MAX
                    ==> store.count(x) == start.count(x) + amount_listed(rewards@.take(i as int), x)),
        decreases rewards.len() - i,
    {
        let (item, amount) = rewards[i];
        let ghost before = *store;
        store.add_item(item, amount);
        proof {
            assert forall|x: BlockType| #![trigger store.count(x)] store.count(x) >= start.count(x)
                && (start.count(x) + amount_listed(rewards@.take(i as int + 1), x) <= u32::MAX
                    ==> store.count(x) == start.count(x) + amount_listed(rewards@.take(i as int + 1), x)) by {
                assert(rewards@.take(i as int + 1).drop_last() =~= rewards@.take(i as int));
            }
        }
        i = i + 1;
    }
    proof {
        assert(rewards@.take(i as int) =~= rewards@);
    }
    q.rewards_claimed = true;
    if q.index + 1 < cache.main_quests.len() {
        q.index = q.index + 1;
        q.completed = false;
        q.rewards_claimed = false;
    }
    true
}

/// Progress shown for one required item.
#[derive(Clone, Copy, Debug, PartialEq, Eq, Structural)]
pub struct ItemProgress {
    pub item: BlockType,
    /// Stored amount, capped at the requirement.
    pub shown: u32,
    pub required: u32,
    /// Storage holds the full requirement.
    pub ready: bool,
}

/// What the quest panel shows.
pub enum QuestPanel {
    /// Every main quest is done.
    AllComplete,
    /// The current quest is done and its rewards wait to be claimed.
    RewardsReady,
    /// The current quest is in progress: one line per required item and whether
    /// the deliver button shows.
    InProgress { items: Vec<ItemProgress>, can_deliver: bool },
}

pub open spec fn spec_item_progress(store: ItemStore, r: (BlockType, u32)) -> ItemProgress {
    let have = store.count(r.0);
    ItemProgress {
        item: r.0,
        shown: if have < r.1 { have } else { r.1 },
        required: r.1,
        ready: have >= r.1,
    }
}

/// The quest panel's contents for the current state.
pub fn quest_panel(q: &CurrentQuest, store: &ItemStore, cache: &QuestCache) -> (p: QuestPanel)
    requires
        store.wf(),
    ensures
        q.index >= cache.main_quests@.len() ==> p is AllComplete,
        q.index < cache.main_quests@.len() && q.completed && !q.rewards_claimed ==> p is RewardsReady,
        q.index < cache.main_quests@.len() && !(q.completed && !q.rewards_claimed) ==> match p {
            QuestPanel::InProgress { items, can_deliver } => {
                let req = cache.main_quests@[q.index as int].required_items@;
                &&& items@.len() == req.len()
                &&& forall|i: int| 0 <= i < req.len() ==> #[trigger] items@[i] == spec_item_progress(*store, req[i])
                &&& can_deliver == spec_can_deliver(*store, req)
            },
            _ => false,
        },
{
    if q.index >= cache.main_quests.len() {
        return QuestPanel::AllComplete;
    }
    if q.completed && !q.rewards_claimed {
        return QuestPanel::RewardsReady;
    }
    let quest = &cache.main_quests[q.index];
    let req = &quest.required_items;
    let mut items: Vec<ItemProgress> = Vec::new();
    let mut i: usize = 0;
    while i < req.len()
        invariant
            i <= req.len(),
            store.wf(),
            req@ == cache.main_quests@[q.index as int].required_items@,
            items@.len() == i,
            forall|k: int| 0 <= k < i ==> #[trigger] items@[k] == spec_item_progress(*store, req@[k]),
        decreases req.len() - i,
    {
        let (item, need) = req[i];
        let have = store.get_count(item);
        items.push(ItemProgress { item, shown: if have < need { have } else { need }, required: need, ready: have >= need });
        i = i + 1;
    }
    let can = can_deliver_from_global_inventory(store, quest);
    QuestPanel::InProgress { items, can_deliver: can }
}

/// Completing the current quest by delivery.
pub open spec fn delivered_state(q: CurrentQuest) -> CurrentQuest {
    CurrentQuest { completed: true, ..q }
}

/// Claiming the rewards of the current quest among `n` main quests: the next
/// quest starts fresh, or on the last quest the rewards are marked claimed.
pub open spec fn claimed_state(q: CurrentQuest, n: nat) -> CurrentQuest {
    if q.index + 1 < n {
        CurrentQuest { index: (q.index + 1) as usize, completed: false, rewards_claimed: false }
    } else {
        CurrentQuest { rewards_claimed: true, ..q }
    }
}

/// Delivering and then claiming moves from a quest to the next one with
/// nothing completed or claimed yet; on the last quest it stays there,
/// completed with its rewards claimed.
pub proof fn law_deliver_then_claim(q: CurrentQuest, n: nat)
    requires
        !q.completed,
        q.index < n,
    ensures
        q.index + 1 < n ==> claimed_state(delivered_state(q), n)
            == (CurrentQuest { index: (q.index + 1) as usize, completed: false, rewards_claimed: false }),
        q.index + 1 >= n ==> claimed_state(delivered_state(q), n)
            == (CurrentQuest { index: q.index, completed: true, rewards_claimed: true }),
{
}

} // verus!
