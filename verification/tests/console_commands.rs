use idle_factory::command::{
    execute_command, is_unsafe_filename, parse_command, parse_item_name, production_test_events, spawn_line_event,
    stress_test_events, CommandAction, CommandUsage, DebugEventType, PRODUCTION_TEST_COAL,
};
use idle_factory::console::{
    command_input_handler, command_input_toggle, get_suggestions, highlighted_suggestion, keycode_to_char,
    CommandInputState, ConsoleKeys, ConsoleOutcome, Key,
};
use idle_factory::geometry::Pos;
use idle_factory::inventory::PlayerInventory;
use idle_factory::items::BlockType;

fn chars(s: &str) -> Vec<char> {
    s.chars().collect()
}

fn candidates() -> Vec<Vec<char>> {
    ["/give", "/creative", "/clear", "/spawn", "/spawn_line", "/save", "/survival"].iter().map(|s| chars(s)).collect()
}

fn no_keys() -> ConsoleKeys {
    ConsoleKeys { escape: false, tab: false, enter: false, backspace: false, shift: false, pressed: vec![] }
}

#[test]
fn give_parses_item_and_count() {
    match parse_command("/give stone 10") {
        CommandAction::Give { item, count } => {
            assert_eq!(item, BlockType::Stone);
            assert_eq!(count, 10);
        },
        _ => panic!("expected give"),
    }
    // upper case names are lowered, a missing count gives a full stack of 64
    match parse_command("give IRON_ORE") {
        CommandAction::Give { item, count } => {
            assert_eq!(item, BlockType::IronOre);
            assert_eq!(count, 64);
        },
        _ => panic!("expected give"),
    }
}

#[test]
fn mode_and_unknown_commands() {
    assert!(matches!(parse_command("/creative"), CommandAction::SetCreative(true)));
    assert!(matches!(parse_command("survival"), CommandAction::SetCreative(false)));
    assert!(matches!(parse_command("   "), CommandAction::Empty));
    match parse_command("/fly now") {
        CommandAction::Unknown(s) => assert_eq!(s, "/fly now"),
        _ => panic!("expected unknown"),
    }
    assert!(matches!(parse_command("/debug_conveyor"), CommandAction::Debug(DebugEventType::Conveyor)));
}

#[test]
fn save_names_that_escape_are_rejected() {
    match parse_command("/save world1") {
        CommandAction::Save(n) => assert_eq!(n, "world1"),
        _ => panic!("expected save"),
    }
    match parse_command("/load") {
        CommandAction::Load(n) => assert_eq!(n, "quicksave"),
        _ => panic!("expected load"),
    }
    assert!(matches!(parse_command("/save ../etc"), CommandAction::RejectedFilename));
    assert!(matches!(parse_command("/load a\\b"), CommandAction::RejectedFilename));
    assert!(is_unsafe_filename(&chars("x/y")));
    assert!(is_unsafe_filename(&chars("..")));
    assert!(!is_unsafe_filename(&chars("a.b")));
}

#[test]
fn positional_commands_and_usage() {
    match parse_command("/setblock 1 -2 3 coal") {
        CommandAction::SetBlock { pos, block } => {
            assert_eq!(pos, Pos { x: 1, y: -2, z: 3 });
            assert_eq!(block, BlockType::Coal);
        },
        _ => panic!("expected setblock"),
    }
    // coordinates that do not parse become zero
    match parse_command("/spawn a 8 b furnace 2") {
        CommandAction::Spawn { pos, machine, direction } => {
            assert_eq!(pos, Pos { x: 0, y: 8, z: 0 });
            assert_eq!(machine, BlockType::FurnaceBlock);
            assert_eq!(direction, Some(2));
        },
        _ => panic!("expected spawn"),
    }
    assert!(matches!(parse_command("/tp 1 2"), CommandAction::Usage(CommandUsage::Teleport)));
    match parse_command("/tp 1 2 3") {
        CommandAction::Teleport { x, y, z } => {
            assert_eq!((x.as_str(), y.as_str(), z.as_str()), ("1", "2", "3"));
        },
        _ => panic!("expected teleport"),
    }
    match parse_command("/setblock 1 2 3 lava") {
        CommandAction::UnknownBlock(n) => assert_eq!(n, "lava"),
        _ => panic!("expected unknown block"),
    }
}

#[test]
fn spawn_line_defaults() {
    match parse_command("/spawn_line 5 5 1 x") {
        CommandAction::SpawnLine { start_x, start_z, direction, count, machine } => {
            assert_eq!((start_x, start_z, direction, count), (5, 5, 1, 5));
            assert_eq!(machine, BlockType::ConveyorBlock);
        },
        _ => panic!("expected spawn line"),
    }
    let e = spawn_line_event(5, 5, 3, 2, BlockType::MinerBlock);
    assert_eq!(e.position, Pos { x: 3, y: 8, z: 5 });
    assert_eq!(e.direction, Some(3));
}

#[test]
fn test_scenarios() {
    let prod = production_test_events();
    assert_eq!(prod.len(), 5);
    assert_eq!(prod[0].machine_id, BlockType::MinerBlock);
    assert_eq!(prod[4].position, Pos { x: 4, y: 8, z: 0 });
    let stress = stress_test_events();
    assert_eq!(stress.len(), 100);
    assert_eq!(stress[99].position, Pos { x: 9, y: 8, z: 9 });
}

#[test]
fn execute_changes_mode_and_inventory() {
    let mut creative = false;
    let mut inv = PlayerInventory::new(36, 64);
    execute_command("/creative", &mut creative, &mut inv);
    assert!(creative);
    execute_command("/give coal 70", &mut creative, &mut inv);
    assert_eq!(inv.get_total_count_by_id(BlockType::Coal), 70);
    assert_eq!(inv.get_slot_count(0), 64);
    assert_eq!(inv.get_slot_count(1), 6);
    execute_command("/test production", &mut creative, &mut inv);
    assert_eq!(inv.get_total_count_by_id(BlockType::Coal), 70 + PRODUCTION_TEST_COAL as u128);
    execute_command("/clear", &mut creative, &mut inv);
    assert_eq!(inv.get_total_count_by_id(BlockType::Coal), 0);
    execute_command("/survival", &mut creative, &mut inv);
    assert!(!creative);
}

#[test]
fn item_names() {
    assert_eq!(parse_item_name(&chars("copper")), Some(BlockType::CopperIngot));
    assert_eq!(parse_item_name(&chars("iron_ore")), Some(BlockType::IronOre));
    assert_eq!(parse_item_name(&chars("Stone")), None);
}

#[test]
fn keys_type_characters() {
    assert_eq!(keycode_to_char(Key::A, false), Some('a'));
    assert_eq!(keycode_to_char(Key::A, true), Some('A'));
    assert_eq!(keycode_to_char(Key::Digit3, false), Some('3'));
    assert_eq!(keycode_to_char(Key::Space, false), Some(' '));
    assert_eq!(keycode_to_char(Key::Other, false), None);
}

#[test]
fn suggestions_are_prefix_matches_up_to_five() {
    let s = get_suggestions(&chars("/s"), &candidates());
    let s: Vec<String> = s.iter().map(|v| v.iter().collect()).collect();
    assert_eq!(s, vec!["/spawn", "/spawn_line", "/save", "/survival"]);
    let all = get_suggestions(&chars("/"), &candidates());
    assert_eq!(all.len(), 5);
    assert!(get_suggestions(&chars(""), &candidates()).is_empty());
    assert_eq!(highlighted_suggestion(4, 6), 2);
    assert_eq!(highlighted_suggestion(0, 6), 0);
}

#[test]
fn console_open_type_and_run() {
    let mut st = CommandInputState::new();
    assert!(command_input_toggle(&mut st, false, false, true));
    assert_eq!(st.text, vec!['/']);
    // the opening key is not typed again
    let mut keys = no_keys();
    keys.pressed = vec![Key::Slash];
    assert!(matches!(command_input_handler(&mut st, &keys, &candidates()), ConsoleOutcome::Editing));
    assert_eq!(st.text, vec!['/']);
    keys.pressed = vec![Key::G, Key::I];
    command_input_handler(&mut st, &keys, &candidates());
    assert_eq!(st.text, chars("/gi"));
    let mut tab = no_keys();
    tab.tab = true;
    command_input_handler(&mut st, &tab, &candidates());
    assert_eq!(st.text, chars("/give"));
    let mut enter = no_keys();
    enter.enter = true;
    match command_input_handler(&mut st, &enter, &candidates()) {
        ConsoleOutcome::Executed(cmd) => assert_eq!(cmd, chars("/give")),
        _ => panic!("expected a command"),
    }
    assert!(!st.open);
    assert!(st.text.is_empty());
}

#[test]
fn console_escape_and_backspace() {
    let mut st = CommandInputState::new();
    assert!(!command_input_toggle(&mut st, true, true, false));
    assert!(command_input_toggle(&mut st, false, true, false));
    assert!(st.text.is_empty());
    let mut keys = no_keys();
    command_input_handler(&mut st, &keys, &candidates());
    keys.pressed = vec![Key::X, Key::Y];
    command_input_handler(&mut st, &keys, &candidates());
    let mut back = no_keys();
    back.backspace = true;
    command_input_handler(&mut st, &back, &candidates());
    assert_eq!(st.text, vec!['x']);
    let mut esc = no_keys();
    esc.escape = true;
    assert!(matches!(command_input_handler(&mut st, &esc, &candidates()), ConsoleOutcome::Closed));
    assert!(matches!(command_input_handler(&mut st, &esc, &candidates()), ConsoleOutcome::Inactive));
}
