use idle_factory::inventory::{add_item, click_slot, consume_item, return_held_item, shift_click_move, total_count, PlayerInventory, Slot};
use idle_factory::inventory_screen::{held_item_display, inventory_panels, on_inventory_closed, tooltip_item, tooltip_text};
use idle_factory::items::BlockType;
use idle_factory::quest::{
    can_deliver_from_global_inventory, quest_claim_rewards, quest_deliver, quest_panel, quest_progress_check, CurrentQuest,
    QuestCache, QuestDef, QuestPanel,
};
use idle_factory::slot_ui::{creative_inventory_click, inventory_continuous_shift_click, inventory_slot_click, trash_slot_click};
use idle_factory::store::ItemStore;

fn empty(n: usize) -> Vec<Slot> {
    vec![None; n]
}

#[test]
fn add_tops_up_then_fills_and_reports_overflow() {
    let mut slots = empty(3);
    slots[1] = Some((BlockType::Stone, 60));
    let rem = add_item(&mut slots, BlockType::Stone, 10, 64);
    assert_eq!(rem, 0);
    assert_eq!(slots, vec![Some((BlockType::Stone, 6)), Some((BlockType::Stone, 64)), None]);
    let rem = add_item(&mut slots, BlockType::Coal, 200, 64);
    assert_eq!(rem, 136);
    assert_eq!(slots[2], Some((BlockType::Coal, 64)));
    assert_eq!(total_count(&slots, BlockType::Stone), 70);
}

#[test]
fn consume_takes_from_the_front_or_nothing() {
    let mut slots = vec![Some((BlockType::Coal, 3)), Some((BlockType::Stone, 1)), Some((BlockType::Coal, 5))];
    assert!(!consume_item(&mut slots, BlockType::Coal, 9));
    assert_eq!(total_count(&slots, BlockType::Coal), 8);
    assert!(consume_item(&mut slots, BlockType::Coal, 4));
    assert_eq!(slots, vec![None, Some((BlockType::Stone, 1)), Some((BlockType::Coal, 4))]);
}

#[test]
fn click_swaps_merges_and_picks_up() {
    let mut slots = vec![Some((BlockType::Stone, 60)), None];
    let mut held: Slot = Some((BlockType::Stone, 10));
    click_slot(&mut slots, &mut held, 0, 64);
    assert_eq!((slots[0], held), (Some((BlockType::Stone, 64)), Some((BlockType::Stone, 6))));
    click_slot(&mut slots, &mut held, 1, 64);
    assert_eq!((slots[1], held), (Some((BlockType::Stone, 6)), None));
    click_slot(&mut slots, &mut held, 0, 64);
    assert_eq!((slots[0], held), (None, Some((BlockType::Stone, 64))));
    let mut other: Slot = Some((BlockType::Coal, 2));
    click_slot(&mut slots, &mut other, 1, 64);
    assert_eq!((slots[1], other), (Some((BlockType::Coal, 2)), Some((BlockType::Stone, 6))));
}

#[test]
fn shift_moves_between_hotbar_and_main() {
    // two hotbar slots, three main slots
    let mut slots = vec![Some((BlockType::Coal, 10)), None, Some((BlockType::Coal, 60)), None, None];
    assert!(shift_click_move(&mut slots, 0, 2, 64));
    assert_eq!(slots, vec![None, None, Some((BlockType::Coal, 64)), Some((BlockType::Coal, 6)), None]);
    // back to the hotbar
    assert!(shift_click_move(&mut slots, 3, 2, 64));
    assert_eq!(slots[0], Some((BlockType::Coal, 6)));
    assert!(!shift_click_move(&mut slots, 4, 2, 64));
}

#[test]
fn held_stack_returns_on_close() {
    let mut slots = vec![Some((BlockType::Stone, 63))];
    let mut held: Slot = Some((BlockType::Stone, 5));
    return_held_item(&mut slots, &mut held, 64);
    assert_eq!((slots[0], held), (Some((BlockType::Stone, 64)), Some((BlockType::Stone, 4))));

    let mut inv = PlayerInventory::new(2, 64);
    let mut held: Slot = Some((BlockType::Coal, 3));
    on_inventory_closed(true, &mut inv, &mut held);
    assert_eq!(held, Some((BlockType::Coal, 3)));
    on_inventory_closed(false, &mut inv, &mut held);
    assert_eq!(held, None);
    assert_eq!(inv.get_total_count_by_id(BlockType::Coal), 3);
}

#[test]
fn screen_panels_and_cursor_stack() {
    let p = inventory_panels(true, false, true);
    assert!(p.main && p.upper && !p.creative_panel);
    assert!(!inventory_panels(true, false, false).upper);
    assert!(!inventory_panels(false, true, true).main);
    assert_eq!(held_item_display(true, Some((BlockType::Coal, 12))).map(|x| x.1), Some("12".to_string()));
    assert_eq!(held_item_display(true, Some((BlockType::Coal, 1))).map(|x| x.1), Some(String::new()));
    assert!(held_item_display(false, Some((BlockType::Coal, 12))).is_none());
}

#[test]
fn tooltip_prefers_hovered_stack() {
    let slots = vec![None, Some((BlockType::Coal, 7))];
    assert_eq!(tooltip_item(&slots, &vec![0, 1], Some(BlockType::Stone)), Some((BlockType::Coal, Some(7))));
    assert_eq!(tooltip_item(&slots, &vec![0], Some(BlockType::Stone)), Some((BlockType::Stone, None)));
    assert_eq!(tooltip_item(&slots, &vec![], None), None);
    assert_eq!(tooltip_text("Coal", Some(7)), "Coal (7)");
    assert_eq!(tooltip_text("Stone", None), "Stone");
}

#[test]
fn slot_screen_clicks() {
    let mut inv = PlayerInventory::new(4, 64);
    inv.slots[0] = Some((BlockType::Coal, 5));
    let mut held: Slot = None;
    inventory_slot_click(&mut inv, &mut held, 0, false, 2);
    assert_eq!((inv.slots[0], held), (None, Some((BlockType::Coal, 5))));
    inventory_slot_click(&mut inv, &mut held, 3, false, 2);
    assert_eq!(inv.slots[3], Some((BlockType::Coal, 5)));
    inventory_slot_click(&mut inv, &mut held, 3, true, 2);
    assert_eq!(inv.slots[0], Some((BlockType::Coal, 5)));
    assert!(!inventory_continuous_shift_click(&mut inv, true, true, false, Some(0), 2));
    assert!(inventory_continuous_shift_click(&mut inv, true, true, true, Some(0), 2));
    assert_eq!(inv.slots[2], Some((BlockType::Coal, 5)));
    let mut hand: Slot = Some((BlockType::Stone, 3));
    trash_slot_click(&mut hand, true, false);
    assert_eq!(hand, Some((BlockType::Stone, 3)));
    trash_slot_click(&mut hand, true, true);
    assert_eq!(hand, None);
    creative_inventory_click(&mut hand, true, false, Some(BlockType::Coal));
    assert_eq!(hand, None);
    creative_inventory_click(&mut hand, true, true, Some(BlockType::Coal));
    assert_eq!(hand, Some((BlockType::Coal, 64)));
}

#[test]
fn store_counts_saturate_and_remove_only_when_enough() {
    let mut s = ItemStore::new();
    s.add_item(BlockType::Coal, 5);
    s.add_item(BlockType::Coal, u32::MAX);
    assert_eq!(s.get_count(BlockType::Coal), u32::MAX);
    assert!(!s.remove_item(BlockType::Stone, 1));
    assert!(s.remove_item(BlockType::Coal, 10));
    assert_eq!(s.get_count(BlockType::Coal), u32::MAX - 10);
    s.add_item(BlockType::Grass, 2);
    assert_eq!(s.get_all_items(), vec![(BlockType::Grass, 2), (BlockType::Coal, u32::MAX - 10)]);
}

fn quest(req: Vec<(BlockType, u32)>, rewards: Vec<(BlockType, u32)>) -> QuestDef {
    QuestDef { id: "q".to_string(), description: "d".to_string(), required_items: req, rewards, unlocks: vec![] }
}

#[test]
fn quests_deliver_and_claim() {
    let cache = QuestCache {
        main_quests: vec![
            quest(vec![(BlockType::IronIngot, 3), (BlockType::Coal, 1)], vec![(BlockType::MinerBlock, 2)]),
            quest(vec![(BlockType::CopperIngot, 1)], vec![]),
        ],
        sub_quests: vec![],
    };
    let mut store = ItemStore::new();
    store.add_item(BlockType::IronIngot, 5);
    let mut q = CurrentQuest { index: 0, completed: false, rewards_claimed: false };
    assert!(!can_deliver_from_global_inventory(&store, &cache.main_quests[0]));
    assert!(!quest_deliver(&mut q, &mut store, &cache, true));
    store.add_item(BlockType::Coal, 1);
    match quest_panel(&q, &store, &cache) {
        QuestPanel::InProgress { items, can_deliver } => {
            assert!(can_deliver);
            assert_eq!(items[0].shown, 3);
            assert!(items[1].ready);
        },
        _ => panic!("expected progress"),
    }
    assert!(!quest_deliver(&mut q, &mut store, &cache, false));
    assert!(quest_deliver(&mut q, &mut store, &cache, true));
    assert!(q.completed);
    assert_eq!(store.get_count(BlockType::IronIngot), 2);
    assert_eq!(store.get_count(BlockType::Coal), 0);
    assert!(matches!(quest_panel(&q, &store, &cache), QuestPanel::RewardsReady));
    assert!(!quest_claim_rewards(&mut q, &mut store, &cache, true, true));
    assert!(quest_claim_rewards(&mut q, &mut store, &cache, true, false));
    assert_eq!(store.get_count(BlockType::MinerBlock), 2);
    assert_eq!(q, CurrentQuest { index: 1, completed: false, rewards_claimed: false });
}

#[test]
fn last_quest_stays_claimed_and_line_completes() {
    let cache = QuestCache { main_quests: vec![quest(vec![], vec![(BlockType::Coal, 1)])], sub_quests: vec![] };
    let mut store = ItemStore::new();
    let mut q = CurrentQuest { index: 0, completed: false, rewards_claimed: false };
    assert!(quest_deliver(&mut q, &mut store, &cache, true));
    assert!(quest_claim_rewards(&mut q, &mut store, &cache, true, false));
    assert_eq!(q, CurrentQuest { index: 0, completed: true, rewards_claimed: true });
    assert!(!quest_claim_rewards(&mut q, &mut store, &cache, true, false));
    let mut past = CurrentQuest { index: 3, completed: false, rewards_claimed: false };
    quest_progress_check(&mut past, 1);
    assert!(past.completed);
    assert!(matches!(quest_panel(&past, &store, &cache), QuestPanel::AllComplete));
}
