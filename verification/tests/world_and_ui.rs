use idle_factory::chunks::{apply_block_edits, chunk_distance, chunks_to_spawn, chunks_to_unload, neighbors_to_remesh, select_first, ChunkCoord};
use idle_factory::debug::{check_floating_blocks, is_supported, target_label, toggle_debug_hud};
use idle_factory::geometry::Pos;
use idle_factory::hotbar::{count_label, select_block_type, slot_style, HeldItemAction, HeldItemDisplayState, SlotStyle};
use idle_factory::invariants::{
    check_player_stuck, clear_old_violations, first_embedded_corner, get_violation_key, mark_saved, track_movement_input,
    violations_to_write, StuckDetector, ViolationKind, ViolationLog, STUCK_THRESHOLD_FRAMES,
};
use idle_factory::items::BlockType;
use idle_factory::machine_ui::{machine_interact, InteractOutcome};
use idle_factory::panel::{
    creative_panel_items, page_label, page_layout, panel_count_label, slot_entry, upper_panel_category_click, upper_panel_page_nav,
    upper_panel_slot_click,
};
use idle_factory::store::ItemStore;
use idle_factory::tutorial::{
    adjacent, process_tutorial_events, progress_label, track_inventory_open, track_production, tutorial_panels, ConveyorStreak,
    TutorialAction, TutorialEvent,
};
use idle_factory::ui_state::{
    initialize_cursor, pause_menu_press, pause_ui_visible, sync_legacy_ui_state, ui_action_handler, ui_escape_handler,
    ui_global_inventory_handler, ui_inventory_handler, CursorOptions, GrabMode, PauseMenuButton, UIAction, UIContext, UIState,
};

fn c(x: i32, z: i32) -> ChunkCoord {
    ChunkCoord { x, z }
}

fn p(x: i32, y: i32, z: i32) -> Pos {
    Pos { x, y, z }
}

#[test]
fn chunk_distance_is_largest_axis() {
    assert_eq!(chunk_distance(c(3, -4), c(0, 0)), 4);
    assert_eq!(chunk_distance(c(i32::MIN, 0), c(i32::MAX, 0)), u32::MAX as u64);
}

#[test]
fn spawn_first_four_missing_around_player() {
    let v = chunks_to_spawn(c(10, 10), 1, &vec![c(9, 9)], &vec![c(9, 10)]);
    assert_eq!(v, vec![c(9, 11), c(10, 9), c(10, 10), c(10, 11)]);
    assert!(chunks_to_spawn(c(0, 0), -1, &vec![], &vec![]).is_empty());
    assert_eq!(chunks_to_spawn(c(0, 0), 0, &vec![], &vec![]), vec![c(0, 0)]);
}

#[test]
fn unload_beyond_view_plus_one() {
    let loaded = vec![c(0, 0), c(3, 0), c(4, 0), c(0, -5)];
    assert_eq!(chunks_to_unload(&loaded, c(0, 0), 2), vec![c(4, 0), c(0, -5)]);
}

#[test]
fn per_frame_budgets_and_neighbours() {
    assert_eq!(select_first(&vec![false, true, true, false, true], 2), vec![1, 2]);
    assert_eq!(select_first(&vec![true, true], 4), vec![0, 1]);
    let loaded = vec![c(1, 0), c(0, 1), c(-1, 0)];
    assert_eq!(neighbors_to_remesh(c(0, 0), &loaded, &vec![c(0, 1)]), vec![c(-1, 0), c(1, 0)]);
}

#[test]
fn player_edits_override_generated_blocks() {
    let mut blocks = vec![Some(BlockType::Stone), Some(BlockType::Grass), None];
    apply_block_edits(&mut blocks, &vec![(0, None), (2, Some(BlockType::Coal)), (0, Some(BlockType::IronOre))]);
    assert_eq!(blocks, vec![Some(BlockType::IronOre), Some(BlockType::Grass), Some(BlockType::Coal)]);
}

#[test]
fn hotbar_selection_wraps() {
    let mut sel: usize = 0;
    select_block_type(&mut sel, true, &vec![1], &vec![], 9);
    assert_eq!(sel, 8);
    select_block_type(&mut sel, true, &vec![-1, -1], &vec![], 9);
    assert_eq!(sel, 1);
    select_block_type(&mut sel, true, &vec![-1], &vec![false, false, true, false, true], 9);
    assert_eq!(sel, 4);
    select_block_type(&mut sel, false, &vec![1], &vec![true], 9);
    assert_eq!(sel, 4);
}

#[test]
fn hotbar_slot_drawing() {
    assert_eq!(slot_style(true, false), SlotStyle::Selected);
    assert_eq!(slot_style(false, true), SlotStyle::Filled);
    assert_eq!(slot_style(false, false), SlotStyle::Empty);
    assert_eq!(count_label(Some((BlockType::Coal, 42))), "42");
    assert_eq!(count_label(Some((BlockType::Coal, 1))), "");
    assert_eq!(count_label(None), "");
    let mut s = HeldItemDisplayState::new();
    assert_eq!(s.update(Some(BlockType::Coal)), HeldItemAction::Show(BlockType::Coal));
    assert_eq!(s.update(Some(BlockType::Coal)), HeldItemAction::Keep);
    assert_eq!(s.update(None), HeldItemAction::HideAll);
    assert_eq!(s.update(Some(BlockType::Coal)), HeldItemAction::Show(BlockType::Coal));
}

#[test]
fn panel_pages() {
    assert_eq!(page_layout(25, 10, 0), (3, 0, 0));
    assert_eq!(page_layout(25, 10, 7), (3, 2, 20));
    assert_eq!(page_layout(0, 10, 3), (0, 0, 0));
    assert_eq!(page_label(2, 3), "3/3");
    assert_eq!(page_label(0, 0), "1/1");
    let items = vec![(BlockType::Coal, 5), (BlockType::Stone, 1)];
    assert_eq!(slot_entry(&items, 0, 1), Some((BlockType::Stone, 1)));
    assert_eq!(slot_entry(&items, 2, 0), None);
    assert_eq!(panel_count_label(5), "5");
    assert_eq!(panel_count_label(1), "");
    assert_eq!(creative_panel_items(&vec![BlockType::Coal]), vec![(BlockType::Coal, 64)]);
    let mut page: usize = 0;
    upper_panel_page_nav(&mut page, false);
    assert_eq!(page, 0);
    upper_panel_page_nav(&mut page, true);
    assert_eq!(page, 1);
    let mut cat: u32 = 0;
    upper_panel_category_click(&mut cat, &mut page, 0);
    assert_eq!(page, 1);
    upper_panel_category_click(&mut cat, &mut page, 2);
    assert_eq!((cat, page), (2, 0));
}

#[test]
fn panel_takes_up_to_a_stack() {
    let mut store = ItemStore::new();
    store.add_item(BlockType::Coal, 100);
    let mut held = None;
    upper_panel_slot_click(&mut held, &mut store, false, true, Some(BlockType::Coal));
    assert_eq!(held, Some((BlockType::Coal, 64)));
    assert_eq!(store.get_count(BlockType::Coal), 36);
    upper_panel_slot_click(&mut held, &mut store, false, true, Some(BlockType::Stone));
    assert_eq!(held, Some((BlockType::Coal, 64)));
    upper_panel_slot_click(&mut held, &mut store, true, false, Some(BlockType::Stone));
    assert_eq!(held, Some((BlockType::Stone, 64)));
    assert_eq!(store.get_count(BlockType::Stone), 0);
}

#[test]
fn tutorial_steps_complete_on_matching_events() {
    let mut s = ConveyorStreak { conveyor_count: 0, last_conveyor_pos: None };
    let evs = vec![TutorialEvent::BlockBroken, TutorialEvent::MachinePlaced(BlockType::FurnaceBlock)];
    assert!(process_tutorial_events(TutorialAction::PlaceMachine(BlockType::FurnaceBlock), &evs, &mut s));
    assert!(!process_tutorial_events(TutorialAction::PlaceMachine(BlockType::MinerBlock), &evs, &mut s));
    let belts = vec![
        TutorialEvent::ConveyorPlaced { position: p(0, 8, 0) },
        TutorialEvent::ConveyorPlaced { position: p(1, 8, 0) },
        TutorialEvent::ConveyorPlaced { position: p(5, 8, 0) },
        TutorialEvent::ConveyorPlaced { position: p(5, 8, 1) },
        TutorialEvent::ConveyorPlaced { position: p(5, 8, 2) },
    ];
    assert!(process_tutorial_events(TutorialAction::PlaceConveyors { count: 3 }, &belts, &mut s));
    assert_eq!(s, ConveyorStreak { conveyor_count: 3, last_conveyor_pos: Some(p(5, 8, 2)) });
    assert!(adjacent(p(0, 0, 0), p(0, -1, 0)));
    assert!(!adjacent(p(0, 0, 0), p(1, 1, 0)));
}

#[test]
fn tutorial_tracking_and_labels() {
    let mut last = false;
    assert!(track_inventory_open(&mut last, true));
    assert!(!track_inventory_open(&mut last, true));
    assert!(!track_inventory_open(&mut last, false));
    let mut seen = vec![0u32; 12];
    let produced = track_production(&mut seen, &vec![(BlockType::IronIngot, 2), (BlockType::Coal, 0)]);
    assert_eq!(produced, vec![BlockType::IronIngot]);
    assert!(track_production(&mut seen, &vec![(BlockType::IronIngot, 2)]).is_empty());
    assert_eq!(progress_label(7, 5), "5/5");
    assert_eq!(progress_label(2, 5), "2/5");
    let panels = tutorial_panels(false, true);
    assert!(panels.tutorial_visible && !panels.quest_visible);
    assert!(tutorial_panels(true, true).quest_visible);
}

#[test]
fn stuck_reported_once_at_threshold() {
    let mut d = StuckDetector::default();
    track_movement_input(&mut d, true, false, false, false);
    let mut reports = 0;
    for _ in 0..(STUCK_THRESHOLD_FRAMES + 20) {
        if check_player_stuck(&mut d, true) {
            reports += 1;
        }
    }
    assert_eq!(reports, 1);
    assert!(!check_player_stuck(&mut d, false));
    assert_eq!(d.stuck_frames, 0);
}

#[test]
fn violation_log_drops_old_and_skips_repeats() {
    let mut log = ViolationLog::default();
    for i in 0..13u64 {
        let k = if i % 2 == 0 { ViolationKind::Stuck } else { ViolationKind::Fell };
        log.violations.push((k, format!("v{}", i), i * 100));
    }
    log.saved_count = 5;
    // at 1250 ms the ones recorded before 250 ms are more than a second old;
    // the one recorded at exactly 250 ms is not
    clear_old_violations(&mut log, 1250);
    assert_eq!(log.violations.len(), 10);
    assert_eq!(log.violations[0].1, "v3");
    assert_eq!(log.saved_count, 2);
    log.last_saved_violation = Some(ViolationKind::Fell);
    let w = violations_to_write(&log, true);
    assert_eq!(w, vec![3, 5, 7, 9]);
    assert_eq!(violations_to_write(&log, false).len(), 8);
    mark_saved(&mut log, Some(ViolationKind::Stuck));
    assert_eq!(log.saved_count, 10);
    assert!(violations_to_write(&log, false).is_empty());
    assert_eq!(get_violation_key(ViolationKind::Embedded), "EMBEDDED");
    // a violation stamped after `now` is not old
    let mut late = ViolationLog::default();
    late.violations.push((ViolationKind::Fell, "late".to_string(), 5000));
    late.violations.push((ViolationKind::Fell, "early".to_string(), 0));
    late.saved_count = 2;
    clear_old_violations(&mut late, 2000);
    assert_eq!(late.violations.len(), 1);
    assert_eq!(late.violations[0].1, "late");
    assert_eq!(late.saved_count, 1);
    assert_eq!(first_embedded_corner(&vec![false, false, true, true]), Some(2));
    assert_eq!(first_embedded_corner(&vec![false]), None);
}

#[test]
fn debug_overlay_helpers() {
    let mut visible = false;
    toggle_debug_hud(&mut visible, true);
    assert!(visible);
    toggle_debug_hud(&mut visible, false);
    assert!(visible);
    assert_eq!(target_label(Some(p(-3, 12, 0))), "(-3,12,0)");
    assert_eq!(target_label(None), "None");
    assert!(is_supported(p(0, 8, 0), false));
    assert!(!is_supported(p(0, 9, 0), false));
    let floating = check_floating_blocks(&vec![p(0, 9, 0), p(0, 10, 0), p(1, 10, 0)], &vec![false, false, true]);
    assert_eq!(floating, vec![p(0, 10, 0)]);
}

#[test]
fn machine_window_open_close() {
    let mut open = None;
    assert_eq!(machine_interact(&mut open, false, false, false, true, false, Some(4)), InteractOutcome::Ignored);
    assert_eq!(machine_interact(&mut open, false, false, false, true, true, Some(4)), InteractOutcome::Opened(4));
    assert_eq!(open, Some(4));
    assert_eq!(machine_interact(&mut open, true, true, false, false, true, None), InteractOutcome::Ignored);
    assert_eq!(machine_interact(&mut open, false, false, true, false, true, None), InteractOutcome::Closed { release_cursor: true });
    assert_eq!(open, None);
}

#[test]
fn screen_stack_keys() {
    let mut st = UIState::default();
    assert_eq!(ui_escape_handler(true, &st, false), Some(UIAction::Push(UIContext::PauseMenu)));
    assert_eq!(ui_escape_handler(true, &st, true), None);
    ui_action_handler(&mut st, &vec![UIAction::Push(UIContext::Machine(3))]);
    assert_eq!(ui_inventory_handler(true, &st), Some(UIAction::Replace(UIContext::Inventory)));
    ui_action_handler(&mut st, &vec![UIAction::Replace(UIContext::Inventory)]);
    assert_eq!(st.current(), UIContext::Inventory);
    assert!(sync_legacy_ui_state(&st).inventory_open);
    assert_eq!(ui_global_inventory_handler(true, &st, false), None);
    ui_action_handler(&mut st, &vec![UIAction::Toggle(UIContext::Inventory), UIAction::Push(UIContext::PauseMenu)]);
    assert!(pause_ui_visible(&st));
    let e = pause_menu_press(PauseMenuButton::Resume);
    assert!(e.unpause && !e.exit);
    ui_action_handler(&mut st, &vec![e.action.unwrap()]);
    assert!(st.is_gameplay());
    ui_action_handler(&mut st, &vec![UIAction::Push(UIContext::Settings), UIAction::Clear]);
    assert!(st.is_gameplay());
}

#[test]
fn cursor_released_on_fifth_frame() {
    let mut frames: u32 = 0;
    let mut cur = CursorOptions { grab_mode: GrabMode::Locked, visible: false };
    for _ in 0..4 {
        assert!(!initialize_cursor(&mut frames, &mut cur));
    }
    assert_eq!(cur.grab_mode, GrabMode::Locked);
    assert!(initialize_cursor(&mut frames, &mut cur));
    assert_eq!(cur, CursorOptions { grab_mode: GrabMode::Free, visible: true });
    assert!(!initialize_cursor(&mut frames, &mut cur));
}
