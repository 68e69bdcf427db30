use idle_factory::inventory::{LocalPlayerInventory, PlayerInventory};
use idle_factory::invariants::{StuckDetector, ViolationLog};
use idle_factory::items::BlockType;
use idle_factory::ui_state::{ui_context_to_string, UIContext, UIElementRegistry, UIElementSpec, UIState};

fn local_player_with(inv: PlayerInventory) -> LocalPlayerInventory {
    LocalPlayerInventory { local_player: Some(42), inventory: Some(inv), events: Vec::new() }
}

#[test]
fn test_inventory_changed_event_add() {
    let mut player_inv = local_player_with(PlayerInventory::new(36, 64));
    let remaining = player_inv.add_item(BlockType::Stone, 10);
    assert_eq!(remaining, 0);

    let received = &player_inv.events;
    assert_eq!(received.len(), 1);
    assert_eq!(received[0].entity, 42);
    assert_eq!(received[0].item_id, BlockType::Stone);
    assert_eq!(received[0].delta, 10);
}

#[test]
fn test_inventory_changed_event_consume() {
    let mut inv = PlayerInventory::new(36, 64);
    inv.add_item_by_id(BlockType::Stone, 20);
    let mut player_inv = local_player_with(inv);
    let success = player_inv.consume_item(BlockType::Stone, 5);
    assert!(success);

    let received = &player_inv.events;
    assert_eq!(received.len(), 1);
    assert_eq!(received[0].entity, 42);
    assert_eq!(received[0].item_id, BlockType::Stone);
    assert_eq!(received[0].delta, -5);
}

#[test]
fn test_inventory_changed_event_no_event_on_failed_consume() {
    let mut player_inv = local_player_with(PlayerInventory::new(36, 64));
    let success = player_inv.consume_item(BlockType::Stone, 5);
    assert!(!success);
    assert_eq!(player_inv.events.len(), 0);
}

#[test]
fn test_inventory_changed_event_no_event_on_zero_add() {
    let mut player_inv = local_player_with(PlayerInventory::new(36, 64));
    let remaining = player_inv.add_item(BlockType::Stone, 0);
    assert_eq!(remaining, 0);
    assert_eq!(player_inv.events.len(), 0);
}

#[test]
fn test_stuck_detector_default() {
    let detector = StuckDetector::default();
    assert_eq!(detector.stuck_frames, 0);
    assert!(!detector.has_input);
}

#[test]
fn test_violation_log_default() {
    let log = ViolationLog::default();
    assert!(log.violations.is_empty());
}

#[test]
fn test_ui_action_push() {
    let mut ui_state = UIState::default();
    ui_state.push(UIContext::Inventory);
    assert_eq!(ui_state.current(), UIContext::Inventory);
}

#[test]
fn test_ui_action_toggle() {
    let mut ui_state = UIState::default();
    if !ui_state.is_active(&UIContext::Inventory) {
        ui_state.push(UIContext::Inventory);
    }
    assert_eq!(ui_state.current(), UIContext::Inventory);
    if ui_state.is_active(&UIContext::Inventory) {
        ui_state.pop();
    }
    assert!(ui_state.is_gameplay());
}

#[test]
fn test_ui_context_to_string() {
    assert_eq!(ui_context_to_string(&UIContext::Gameplay), "Gameplay");
    assert_eq!(ui_context_to_string(&UIContext::Inventory), "Inventory");
    assert_eq!(ui_context_to_string(&UIContext::PauseMenu), "PauseMenu");
    assert_eq!(ui_context_to_string(&UIContext::Machine(0)), "MachineUI");
}

#[test]
fn test_collect_ui_element_states() {
    let mut registry = UIElementRegistry::new();
    let spec = UIElementSpec {
        id: "base:test".to_string(),
        name: "Test".to_string(),
        show_in: vec!["Gameplay".to_string()],
        interactable: false,
        dynamic: false,
    };
    let id = registry.register_spec(spec);
    assert!(registry.should_show(id, "Gameplay"));
    assert!(!registry.should_show(id, "PauseMenu"));
}
