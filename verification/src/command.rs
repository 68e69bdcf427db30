//! The in-game command console: parsing a command line into the action it asks for.
//!
//! A command line is split on white space; the first word names the command (with
//! or without a leading slash) and the rest are its arguments. Numbers that do not
//! parse fall back to each command's defaults.

use vstd::prelude::*;
use crate::geometry::Pos;
use crate::inventory::{spec_store, PlayerInventory};
use crate::items::BlockType;
use crate::text::{
    chars_eq_str, parse_i32, parse_u32, parse_u8, parse_usize, spec_parse_i32,
    spec_parse_unsigned, spec_words, split_words, string_of,
};

verus! {

/// What `str::to_lowercase` returns for a string (Unicode lower-case mapping).
pub uninterp spec fn lowercase_of(s: Seq<char>) -> Seq<char>;

pub open spec fn ascii_lower_char(c: char) -> char {
    if 'A' <= c <= 'Z' {
        ((c as u32) + 32) as char
    } else {
        c
    }
}

pub open spec fn is_ascii_seq(s: Seq<char>) -> bool {
    forall|i: int| 0 <= i < s.len() ==> (#[trigger] s[i] as u32) < 128
}

/// `str::to_lowercase`: the Unicode lower-case mapping of the string. On ASCII
/// text it maps `A`..`Z` to `a`..`z` and leaves every other character alone; what
/// it does to other characters is left to the name `lowercase_of`.
#[verifier::external_body]
fn to_lowercase(s: &str) -> (r: String)
    ensures
        r@ == lowercase_of(s@),
        is_ascii_seq(s@) ==> r@ == s@.map_values(|c: char| ascii_lower_char(c)),
{
    s.to_lowercase()
}

/// The lower-cased characters of a word: on ASCII text `A`..`Z` become
/// `a`..`z` and every other character stays.
pub fn lower_word(w: &Vec<char>) -> (r: Vec<char>)
    ensures
        r@ == lowercase_of(w@),
        is_ascii_seq(w@) ==> r@ == w@.map_values(|c: char| ascii_lower_char(c)),
{
    let s = string_of(w);
    let l = to_lowercase(s.as_str());
    crate::text::chars_of(l.as_str())
}

/// The item an item name denotes in commands.
pub open spec fn spec_item_name(n: Seq<char>) -> Option<BlockType> {
    if n == "stone"@ {
        Some(BlockType::Stone)
    } else if n == "grass"@ {
        Some(BlockType::Grass)
    } else if n == "ironore"@ || n == "iron_ore"@ {
        Some(BlockType::IronOre)
    } else if n == "copperore"@ || n == "copper_ore"@ {
        Some(BlockType::CopperOre)
    } else if n == "coal"@ {
        Some(BlockType::Coal)
    } else if n == "ironingot"@ || n == "iron_ingot"@ || n == "iron"@ {
        Some(BlockType::IronIngot)
    } else if n == "copperingot"@ || n == "copper_ingot"@ || n == "copper"@ {
        Some(BlockType::CopperIngot)
    } else if n == "miner"@ {
        Some(BlockType::MinerBlock)
    } else if n == "conveyor"@ {
        Some(BlockType::ConveyorBlock)
    } else if n == "crusher"@ {
        Some(BlockType::CrusherBlock)
    } else if n == "furnace"@ {
        Some(BlockType::FurnaceBlock)
    } else {
        None
    }
}

pub fn parse_item_name(n: &Vec<char>) -> (r: Option<BlockType>)
    ensures
        r == spec_item_name(n@),
{
    if chars_eq_str(n, "stone") {
        Some(BlockType::Stone)
    } else if chars_eq_str(n, "grass") {
        Some(BlockType::Grass)
    } else if chars_eq_str(n, "ironore") || chars_eq_str(n, "iron_ore") {
        Some(BlockType::IronOre)
    } else if chars_eq_str(n, "copperore") || chars_eq_str(n, "copper_ore") {
        Some(BlockType::CopperOre)
    } else if chars_eq_str(n, "coal") {
        Some(BlockType::Coal)
    } else if chars_eq_str(n, "ironingot") || chars_eq_str(n, "iron_ingot") || chars_eq_str(
        n,
        "iron",
    ) {
        Some(BlockType::IronIngot)
    } else if chars_eq_str(n, "copperingot") || chars_eq_str(n, "copper_ingot") || chars_eq_str(
        n,
        "copper",
    ) {
        Some(BlockType::CopperIngot)
    } else if chars_eq_str(n, "miner") {
        Some(BlockType::MinerBlock)
    } else if chars_eq_str(n, "conveyor") {
        Some(BlockType::ConveyorBlock)
    } else if chars_eq_str(n, "crusher") {
        Some(BlockType::CrusherBlock)
    } else if chars_eq_str(n, "furnace") {
        Some(BlockType::FurnaceBlock)
    } else {
        None
    }
}

/// A file name that could leave the save directory: it holds a slash, a backslash
/// or two dots in a row.
pub open spec fn spec_unsafe_filename(n: Seq<char>) -> bool {
    n.contains('/') || n.contains('\\') || exists|i: int|
        0 <= i < n.len() - 1 && #[trigger] n[i] == '.' && n[i + 1] == '.'
}

pub fn is_unsafe_filename(n: &Vec<char>) -> (r: bool)
    ensures
        r == spec_unsafe_filename(n@),
{
    let mut i: usize = 0;
    while i < n.len()
        invariant
            i <= n.len(),
            forall|j: int| 0 <= j < i ==> n@[j] != '/' && n@[j] != '\\',
            forall|j: int| 0 <= j < i && j + 1 < n@.len() ==> !(#[trigger] n@[j] == '.' && n@[j + 1] == '.'),
        decreases n.len() - i,
    {
        if n[i] == '/' || n[i] == '\\' {
            proof {
                assert(n@[i as int] == '/' || n@[i as int] == '\\');
            }
            return true;
        }
        if i + 1 < n.len() && n[i] == '.' && n[i + 1] == '.' {
            return true;
        }
        i = i + 1;
    }
    proof {
        assert(!n@.contains('/'));
        assert(!n@.contains('\\'));
    }
    false
}

/// Machine checks that the `/assert machine` command asks for.
#[derive(Clone, Copy, Debug, PartialEq, Eq, Structural)]
pub enum MachineAssertType {
    /// Some miner is mining or has output waiting.
    MinerWorking,
    /// Some belt carries an item.
    ConveyorHasItems,
    /// At least `min_count` machines of this kind exist.
    MachineCount { machine: BlockType, min_count: u32 },
}

/// Which state dump a debug command asks for.
#[derive(Clone, Copy, Debug, PartialEq, Eq, Structural)]
pub enum DebugEventType {
    Conveyor,
    Machine,
    Connection,
}

/// Which usage hint a malformed command gets.
#[derive(Clone, Copy, Debug, PartialEq, Eq, Structural)]
pub enum CommandUsage {
    Teleport,
    Look,
    SetBlock,
    Spawn,
    SpawnLine,
    Test,
    Assert,
    AssertInventory,
    AssertSlot,
    AssertMachine,
}

/// What a command line asks for.
#[allow(inconsistent_fields)]
pub enum CommandAction {
    /// Nothing was typed.
    Empty,
    /// Turn creative mode on (`true`) or off.
    SetCreative(bool),
    Give { item: BlockType, count: u32 },
    /// A recognised command whose arguments name nothing; it does nothing.
    Ignored,
    ClearInventory,
    Save(String),
    Load(String),
    /// A save, load or screenshot name that could escape its directory.
    RejectedFilename,
    Help,
    /// Teleport to the coordinates written in these three words.
    Teleport { x: String, y: String, z: String },
    /// Look along the pitch and yaw, in degrees, written in these two words.
    Look { pitch: String, yaw: String },
    SetBlock { pos: Pos, block: BlockType },
    UnknownBlock(String),
    Spawn { pos: Pos, machine: BlockType, direction: Option<u8> },
    UnknownMachine(String),
    SpawnLine { start_x: i32, start_z: i32, direction: u8, count: u32, machine: BlockType },
    TestProduction,
    TestStress,
    AssertInventory { item: BlockType, min_count: u32 },
    UnknownItem(String),
    AssertSlot { index: usize, item: BlockType, count: u32 },
    AssertMachine(MachineAssertType),
    Debug(DebugEventType),
    /// Take a screenshot under this name, or under a time-stamped default name.
    Screenshot(Option<String>),
    Usage(CommandUsage),
    /// The whole line, which names no command.
    Unknown(String),
}

/// [`CommandAction`] with its texts as character sequences.
#[allow(inconsistent_fields)]
pub enum ParsedCommand {
    Empty,
    SetCreative(bool),
    Give { item: BlockType, count: u32 },
    Ignored,
    ClearInventory,
    Save(Seq<char>),
    Load(Seq<char>),
    RejectedFilename,
    Help,
    Teleport { x: Seq<char>, y: Seq<char>, z: Seq<char> },
    Look { pitch: Seq<char>, yaw: Seq<char> },
    SetBlock { pos: Pos, block: BlockType },
    UnknownBlock(Seq<char>),
    Spawn { pos: Pos, machine: BlockType, direction: Option<u8> },
    UnknownMachine(Seq<char>),
    SpawnLine { start_x: i32, start_z: i32, direction: u8, count: u32, machine: BlockType },
    TestProduction,
    TestStress,
    AssertInventory { item: BlockType, min_count: u32 },
    UnknownItem(Seq<char>),
    AssertSlot { index: usize, item: BlockType, count: u32 },
    AssertMachine(MachineAssertType),
    Debug(DebugEventType),
    Screenshot(Option<Seq<char>>),
    Usage(CommandUsage),
    Unknown(Seq<char>),
}

impl View for CommandAction {
    type V = ParsedCommand;

    open spec fn view(&self) -> ParsedCommand {
        match self {
            CommandAction::Empty => ParsedCommand::Empty,
            CommandAction::SetCreative(b) => ParsedCommand::SetCreative(*b),
            CommandAction::Give { item, count } => ParsedCommand::Give { item: *item, count: *count },
            CommandAction::Ignored => ParsedCommand::Ignored,
            CommandAction::ClearInventory => ParsedCommand::ClearInventory,
            CommandAction::Save(n) => ParsedCommand::Save(n@),
            CommandAction::Load(n) => ParsedCommand::Load(n@),
            CommandAction::RejectedFilename => ParsedCommand::RejectedFilename,
            CommandAction::Help => ParsedCommand::Help,
            CommandAction::Teleport { x, y, z } => ParsedCommand::Teleport { x: x@, y: y@, z: z@ },
            CommandAction::Look { pitch, yaw } => ParsedCommand::Look { pitch: pitch@, yaw: yaw@ },
            CommandAction::SetBlock { pos, block } => ParsedCommand::SetBlock { pos: *pos, block: *block },
            CommandAction::UnknownBlock(n) => ParsedCommand::UnknownBlock(n@),
            CommandAction::Spawn { pos, machine, direction } => ParsedCommand::Spawn {
                pos: *pos,
                machine: *machine,
                direction: *direction,
            },
            CommandAction::UnknownMachine(n) => ParsedCommand::UnknownMachine(n@),
            CommandAction::SpawnLine { start_x, start_z, direction, count, machine } =>
                ParsedCommand::SpawnLine {
                start_x: *start_x,
                start_z: *start_z,
                direction: *direction,
                count: *count,
                machine: *machine,
            },
            CommandAction::TestProduction => ParsedCommand::TestProduction,
            CommandAction::TestStress => ParsedCommand::TestStress,
            CommandAction::AssertInventory { item, min_count } => ParsedCommand::AssertInventory {
                item: *item,
                min_count: *min_count,
            },
            CommandAction::UnknownItem(n) => ParsedCommand::UnknownItem(n@),
            CommandAction::AssertSlot { index, item, count } => ParsedCommand::AssertSlot {
                index: *index,
                item: *item,
                count: *count,
            },
            CommandAction::AssertMachine(t) => ParsedCommand::AssertMachine(*t),
            CommandAction::Debug(t) => ParsedCommand::Debug(*t),
            CommandAction::Screenshot(n) => ParsedCommand::Screenshot(
                match n {
                    Some(s) => Some(s@),
                    None => None,
                },
            ),
            CommandAction::Usage(u) => ParsedCommand::Usage(*u),
            CommandAction::Unknown(n) => ParsedCommand::Unknown(n@),
        }
    }
}

/// Word `i` of the command, if there is one, equals `lit`.
pub open spec fn word_is(parts: Seq<Seq<char>>, i: int, lit: Seq<char>) -> bool {
    0 <= i < parts.len() && parts[i] == lit
}

/// Word `i` read as a `u32`, or `default` when it is missing or not a `u32`.
pub open spec fn u32_or(parts: Seq<Seq<char>>, i: int, default: u32) -> u32 {
    if 0 <= i < parts.len() {
        match spec_parse_unsigned(parts[i], u32::MAX as nat) {
            Some(v) => v as u32,
            None => default,
        }
    } else {
        default
    }
}

/// Word `i` read as an `i32`, or `default`.
pub open spec fn i32_or(parts: Seq<Seq<char>>, i: int, default: i32) -> i32 {
    if 0 <= i < parts.len() {
        match spec_parse_i32(parts[i]) {
            Some(v) => v as i32,
            None => default,
        }
    } else {
        default
    }
}

/// Word `i` read as a `u8`, if it is one.
pub open spec fn u8_opt(parts: Seq<Seq<char>>, i: int) -> Option<u8> {
    if 0 <= i < parts.len() {
        match spec_parse_unsigned(parts[i], u8::MAX as nat) {
            Some(v) => Some(v as u8),
            None => None,
        }
    } else {
        None
    }
}

/// Word `i` read as a `usize`, or `default`.
pub open spec fn usize_or(parts: Seq<Seq<char>>, i: int, default: usize) -> usize {
    if 0 <= i < parts.len() {
        match spec_parse_unsigned(parts[i], usize::MAX as nat) {
            Some(v) => v as usize,
            None => default,
        }
    } else {
        default
    }
}

/// The file name given in word 1, or "quicksave".
pub open spec fn filename_arg(parts: Seq<Seq<char>>) -> Seq<char> {
    if parts.len() > 1 {
        parts[1]
    } else {
        "quicksave"@
    }
}

pub open spec fn spec_give(parts: Seq<Seq<char>>) -> ParsedCommand {
    if parts.len() >= 2 {
        match spec_item_name(lowercase_of(parts[1])) {
            Some(item) => ParsedCommand::Give { item, count: u32_or(parts, 2, 64) },
            None => ParsedCommand::Ignored,
        }
    } else {
        ParsedCommand::Ignored
    }
}

pub open spec fn spec_setblock(parts: Seq<Seq<char>>) -> ParsedCommand {
    if parts.len() >= 5 {
        let name = lowercase_of(parts[4]);
        let pos = Pos { x: i32_or(parts, 1, 0), y: i32_or(parts, 2, 0), z: i32_or(parts, 3, 0) };
        match spec_item_name(name) {
            Some(block) => ParsedCommand::SetBlock { pos, block },
            None => ParsedCommand::UnknownBlock(name),
        }
    } else {
        ParsedCommand::Usage(CommandUsage::SetBlock)
    }
}

pub open spec fn spec_spawn(parts: Seq<Seq<char>>) -> ParsedCommand {
    if parts.len() >= 5 {
        let name = lowercase_of(parts[4]);
        let pos = Pos { x: i32_or(parts, 1, 0), y: i32_or(parts, 2, 0), z: i32_or(parts, 3, 0) };
        match spec_item_name(name) {
            Some(machine) => ParsedCommand::Spawn { pos, machine, direction: u8_opt(parts, 5) },
            None => ParsedCommand::UnknownMachine(name),
        }
    } else {
        ParsedCommand::Usage(CommandUsage::Spawn)
    }
}

pub open spec fn spec_spawn_line(parts: Seq<Seq<char>>) -> ParsedCommand {
    if parts.len() >= 5 {
        let machine = if parts.len() > 5 {
            match spec_item_name(lowercase_of(parts[5])) {
                Some(m) => m,
                None => BlockType::ConveyorBlock,
            }
        } else {
            BlockType::ConveyorBlock
        };
        ParsedCommand::SpawnLine {
            start_x: i32_or(parts, 1, 0),
            start_z: i32_or(parts, 2, 0),
            direction: match u8_opt(parts, 3) {
                Some(d) => d,
                None => 0,
            },
            count: u32_or(parts, 4, 5),
            machine,
        }
    } else {
        ParsedCommand::Usage(CommandUsage::SpawnLine)
    }
}

pub open spec fn spec_assert_machine(parts: Seq<Seq<char>>) -> ParsedCommand {
    if word_is(parts, 2, "miner"@) && word_is(parts, 3, "working"@) {
        ParsedCommand::AssertMachine(MachineAssertType::MinerWorking)
    } else if word_is(parts, 2, "conveyor"@) && word_is(parts, 3, "items"@) {
        ParsedCommand::AssertMachine(MachineAssertType::ConveyorHasItems)
    } else if parts.len() > 2 && word_is(parts, 3, "count"@) {
        match spec_item_name(parts[2]) {
            Some(machine) => ParsedCommand::AssertMachine(
                MachineAssertType::MachineCount { machine, min_count: u32_or(parts, 4, 1) },
            ),
            None => ParsedCommand::UnknownMachine(parts[2]),
        }
    } else {
        ParsedCommand::Usage(CommandUsage::AssertMachine)
    }
}

pub open spec fn spec_assert(parts: Seq<Seq<char>>) -> ParsedCommand {
    if word_is(parts, 1, "inventory"@) {
        if parts.len() >= 4 {
            let name = lowercase_of(parts[2]);
            match spec_item_name(name) {
                Some(item) => ParsedCommand::AssertInventory { item, min_count: u32_or(parts, 3, 1) },
                None => ParsedCommand::UnknownItem(name),
            }
        } else {
            ParsedCommand::Usage(CommandUsage::AssertInventory)
        }
    } else if word_is(parts, 1, "slot"@) {
        if parts.len() >= 5 {
            match spec_item_name(lowercase_of(parts[3])) {
                Some(item) => ParsedCommand::AssertSlot {
                    index: usize_or(parts, 2, 0),
                    item,
                    count: u32_or(parts, 4, 1),
                },
                None => ParsedCommand::Ignored,
            }
        } else {
            ParsedCommand::Usage(CommandUsage::AssertSlot)
        }
    } else if word_is(parts, 1, "machine"@) {
        spec_assert_machine(parts)
    } else {
        ParsedCommand::Usage(CommandUsage::Assert)
    }
}

pub open spec fn spec_file_command(parts: Seq<Seq<char>>, save: bool) -> ParsedCommand {
    let name = filename_arg(parts);
    if spec_unsafe_filename(name) {
        ParsedCommand::RejectedFilename
    } else if save {
        ParsedCommand::Save(name)
    } else {
        ParsedCommand::Load(name)
    }
}

pub open spec fn spec_screenshot(parts: Seq<Seq<char>>) -> ParsedCommand {
    if parts.len() > 1 {
        if spec_unsafe_filename(parts[1]) {
            ParsedCommand::RejectedFilename
        } else {
            ParsedCommand::Screenshot(Some(parts[1]))
        }
    } else {
        ParsedCommand::Screenshot(None)
    }
}

/// The command word is one of the two spellings (with and without the slash).
pub open spec fn is_cmd(w: Seq<char>, slashed: Seq<char>, bare: Seq<char>) -> bool {
    w == slashed || w == bare
}

/// The action a command line asks for.
pub open spec fn spec_parse_command(line: Seq<char>) -> ParsedCommand {
    let parts = spec_words(line);
    if parts.len() == 0 {
        ParsedCommand::Empty
    } else {
        let w = parts[0];
        if is_cmd(w, "/creative"@, "creative"@) {
            ParsedCommand::SetCreative(true)
        } else if is_cmd(w, "/survival"@, "survival"@) {
            ParsedCommand::SetCreative(false)
        } else if is_cmd(w, "/give"@, "give"@) {
            spec_give(parts)
        } else if is_cmd(w, "/clear"@, "clear"@) {
            ParsedCommand::ClearInventory
        } else if is_cmd(w, "/save"@, "save"@) {
            spec_file_command(parts, true)
        } else if is_cmd(w, "/load"@, "load"@) {
            spec_file_command(parts, false)
        } else if is_cmd(w, "/help"@, "help"@) {
            ParsedCommand::Help
        } else if is_cmd(w, "/tp"@, "tp"@) {
            if parts.len() >= 4 {
                ParsedCommand::Teleport { x: parts[1], y: parts[2], z: parts[3] }
            } else {
                ParsedCommand::Usage(CommandUsage::Teleport)
            }
        } else if is_cmd(w, "/look"@, "look"@) {
            if parts.len() >= 3 {
                ParsedCommand::Look { pitch: parts[1], yaw: parts[2] }
            } else {
                ParsedCommand::Usage(CommandUsage::Look)
            }
        } else if is_cmd(w, "/setblock"@, "setblock"@) {
            spec_setblock(parts)
        } else if is_cmd(w, "/spawn"@, "spawn"@) {
            spec_spawn(parts)
        } else if is_cmd(w, "/spawn_line"@, "spawn_line"@) {
            spec_spawn_line(parts)
        } else if is_cmd(w, "/test"@, "test"@) {
            if word_is(parts, 1, "production"@) {
                ParsedCommand::TestProduction
            } else if word_is(parts, 1, "stress"@) {
                ParsedCommand::TestStress
            } else {
                ParsedCommand::Usage(CommandUsage::Test)
            }
        } else if is_cmd(w, "/assert"@, "assert"@) {
            spec_assert(parts)
        } else if is_cmd(w, "/debug_conveyor"@, "debug_conveyor"@) {
            ParsedCommand::Debug(DebugEventType::Conveyor)
        } else if is_cmd(w, "/debug_machine"@, "debug_machine"@) {
            ParsedCommand::Debug(DebugEventType::Machine)
        } else if is_cmd(w, "/debug_connection"@, "debug_connection"@) {
            ParsedCommand::Debug(DebugEventType::Connection)
        } else if is_cmd(w, "/screenshot"@, "screenshot"@) {
            spec_screenshot(parts)
        } else {
            ParsedCommand::Unknown(line)
        }
    }
}


/// The words of a command as character sequences.
pub open spec fn wv(parts: Seq<Vec<char>>) -> Seq<Seq<char>> {
    parts.map_values(|v: Vec<char>| v@)
}

fn word_eq(parts: &Vec<Vec<char>>, i: usize, lit: &str) -> (r: bool)
    ensures
        r == word_is(wv(parts@), i as int, lit@),
{
    if i < parts.len() {
        chars_eq_str(&parts[i], lit)
    } else {
        false
    }
}

fn cmd_eq(w: &Vec<char>, slashed: &str, bare: &str) -> (r: bool)
    ensures
        r == is_cmd(w@, slashed@, bare@),
{
    chars_eq_str(w, slashed) || chars_eq_str(w, bare)
}

fn u32_arg(parts: &Vec<Vec<char>>, i: usize, default: u32) -> (r: u32)
    ensures
        r == u32_or(wv(parts@), i as int, default),
{
    if i < parts.len() {
        match parse_u32(&parts[i]) {
            Some(v) => v,
            None => default,
        }
    } else {
        default
    }
}

fn i32_arg(parts: &Vec<Vec<char>>, i: usize, default: i32) -> (r: i32)
    ensures
        r == i32_or(wv(parts@), i as int, default),
{
    if i < parts.len() {
        match parse_i32(&parts[i]) {
            Some(v) => v,
            None => default,
        }
    } else {
        default
    }
}

fn u8_arg(parts: &Vec<Vec<char>>, i: usize) -> (r: Option<u8>)
    ensures
        r == u8_opt(wv(parts@), i as int),
{
    if i < parts.len() {
        parse_u8(&parts[i])
    } else {
        None
    }
}

fn usize_arg(parts: &Vec<Vec<char>>, i: usize, default: usize) -> (r: usize)
    ensures
        r == usize_or(wv(parts@), i as int, default),
{
    if i < parts.len() {
        match parse_usize(&parts[i]) {
            Some(v) => v,
            None => default,
        }
    } else {
        default
    }
}

fn give_command(parts: &Vec<Vec<char>>) -> (r: CommandAction)
    ensures
        r@ == spec_give(wv(parts@)),
{
    if parts.len() >= 2 {
        match parse_item_name(&lower_word(&parts[1])) {
            Some(item) => CommandAction::Give { item, count: u32_arg(parts, 2, 64) },
            None => CommandAction::Ignored,
        }
    } else {
        CommandAction::Ignored
    }
}

fn setblock_command(parts: &Vec<Vec<char>>) -> (r: CommandAction)
    ensures
        r@ == spec_setblock(wv(parts@)),
{
    if parts.len() >= 5 {
        let name = lower_word(&parts[4]);
        let pos = Pos { x: i32_arg(parts, 1, 0), y: i32_arg(parts, 2, 0), z: i32_arg(parts, 3, 0) };
        match parse_item_name(&name) {
            Some(block) => CommandAction::SetBlock { pos, block },
            None => CommandAction::UnknownBlock(string_of(&name)),
        }
    } else {
        CommandAction::Usage(CommandUsage::SetBlock)
    }
}

fn spawn_command(parts: &Vec<Vec<char>>) -> (r: CommandAction)
    ensures
        r@ == spec_spawn(wv(parts@)),
{
    if parts.len() >= 5 {
        let name = lower_word(&parts[4]);
        let pos = Pos { x: i32_arg(parts, 1, 0), y: i32_arg(parts, 2, 0), z: i32_arg(parts, 3, 0) };
        match parse_item_name(&name) {
            Some(machine) => CommandAction::Spawn { pos, machine, direction: u8_arg(parts, 5) },
            None => CommandAction::UnknownMachine(string_of(&name)),
        }
    } else {
        CommandAction::Usage(CommandUsage::Spawn)
    }
}

fn spawn_line_command(parts: &Vec<Vec<char>>) -> (r: CommandAction)
    ensures
        r@ == spec_spawn_line(wv(parts@)),
{
    if parts.len() >= 5 {
        let machine = if parts.len() > 5 {
            match parse_item_name(&lower_word(&parts[5])) {
                Some(m) => m,
                None => BlockType::ConveyorBlock,
            }
        } else {
            BlockType::ConveyorBlock
        };
        let direction = match u8_arg(parts, 3) {
            Some(d) => d,
            None => 0,
        };
        CommandAction::SpawnLine {
            start_x: i32_arg(parts, 1, 0),
            start_z: i32_arg(parts, 2, 0),
            direction,
            count: u32_arg(parts, 4, 5),
            machine,
        }
    } else {
        CommandAction::Usage(CommandUsage::SpawnLine)
    }
}

fn assert_machine_command(parts: &Vec<Vec<char>>) -> (r: CommandAction)
    ensures
        r@ == spec_assert_machine(wv(parts@)),
{
    if word_eq(parts, 2, "miner") && word_eq(parts, 3, "working") {
        CommandAction::AssertMachine(MachineAssertType::MinerWorking)
    } else if word_eq(parts, 2, "conveyor") && word_eq(parts, 3, "items") {
        CommandAction::AssertMachine(MachineAssertType::ConveyorHasItems)
    } else if parts.len() > 2 && word_eq(parts, 3, "count") {
        match parse_item_name(&parts[2]) {
            Some(machine) => CommandAction::AssertMachine(
                MachineAssertType::MachineCount { machine, min_count: u32_arg(parts, 4, 1) },
            ),
            None => CommandAction::UnknownMachine(string_of(&parts[2])),
        }
    } else {
        CommandAction::Usage(CommandUsage::AssertMachine)
    }
}

fn assert_command(parts: &Vec<Vec<char>>) -> (r: CommandAction)
    ensures
        r@ == spec_assert(wv(parts@)),
{
    if word_eq(parts, 1, "inventory") {
        if parts.len() >= 4 {
            let name = lower_word(&parts[2]);
            match parse_item_name(&name) {
                Some(item) => CommandAction::AssertInventory { item, min_count: u32_arg(parts, 3, 1) },
                None => CommandAction::UnknownItem(string_of(&name)),
            }
        } else {
            CommandAction::Usage(CommandUsage::AssertInventory)
        }
    } else if word_eq(parts, 1, "slot") {
        if parts.len() >= 5 {
            match parse_item_name(&lower_word(&parts[3])) {
                Some(item) => CommandAction::AssertSlot {
                    index: usize_arg(parts, 2, 0),
                    item,
                    count: u32_arg(parts, 4, 1),
                },
                None => CommandAction::Ignored,
            }
        } else {
            CommandAction::Usage(CommandUsage::AssertSlot)
        }
    } else if word_eq(parts, 1, "machine") {
        assert_machine_command(parts)
    } else {
        CommandAction::Usage(CommandUsage::Assert)
    }
}

fn file_command(parts: &Vec<Vec<char>>, save: bool) -> (r: CommandAction)
    ensures
        r@ == spec_file_command(wv(parts@), save),
{
    let name: Vec<char> = if parts.len() > 1 {
        parts[1].clone()
    } else {
        crate::text::chars_of("quicksave")
    };
    if is_unsafe_filename(&name) {
        CommandAction::RejectedFilename
    } else if save {
        CommandAction::Save(string_of(&name))
    } else {
        CommandAction::Load(string_of(&name))
    }
}

fn screenshot_command(parts: &Vec<Vec<char>>) -> (r: CommandAction)
    ensures
        r@ == spec_screenshot(wv(parts@)),
{
    if parts.len() > 1 {
        if is_unsafe_filename(&parts[1]) {
            CommandAction::RejectedFilename
        } else {
            CommandAction::Screenshot(Some(string_of(&parts[1])))
        }
    } else {
        CommandAction::Screenshot(None)
    }
}

/// Parse a command line into the action it asks for (see [`spec_parse_command`]).
pub fn parse_command(line: &str) -> (r: CommandAction)
    ensures
        r@ == spec_parse_command(line@),
{
    let parts = split_words(line);
    proof {
        assert(wv(parts@) =~= spec_words(line@));
    }
    if parts.len() == 0 {
        return CommandAction::Empty;
    }
    let w = &parts[0];
    if cmd_eq(w, "/creative", "creative") {
        CommandAction::SetCreative(true)
    } else if cmd_eq(w, "/survival", "survival") {
        CommandAction::SetCreative(false)
    } else if cmd_eq(w, "/give", "give") {
        give_command(&parts)
    } else if cmd_eq(w, "/clear", "clear") {
        CommandAction::ClearInventory
    } else if cmd_eq(w, "/save", "save") {
        file_command(&parts, true)
    } else if cmd_eq(w, "/load", "load") {
        file_command(&parts, false)
    } else if cmd_eq(w, "/help", "help") {
        CommandAction::Help
    } else if cmd_eq(w, "/tp", "tp") {
        if parts.len() >= 4 {
            CommandAction::Teleport {
                x: string_of(&parts[1]),
                y: string_of(&parts[2]),
                z: string_of(&parts[3]),
            }
        } else {
            CommandAction::Usage(CommandUsage::Teleport)
        }
    } else if cmd_eq(w, "/look", "look") {
        if parts.len() >= 3 {
            CommandAction::Look { pitch: string_of(&parts[1]), yaw: string_of(&parts[2]) }
        } else {
            CommandAction::Usage(CommandUsage::Look)
        }
    } else if cmd_eq(w, "/setblock", "setblock") {
        setblock_command(&parts)
    } else if cmd_eq(w, "/spawn", "spawn") {
        spawn_command(&parts)
    } else if cmd_eq(w, "/spawn_line", "spawn_line") {
        spawn_line_command(&parts)
    } else if cmd_eq(w, "/test", "test") {
        if word_eq(&parts, 1, "production") {
            CommandAction::TestProduction
        } else if word_eq(&parts, 1, "stress") {
            CommandAction::TestStress
        } else {
            CommandAction::Usage(CommandUsage::Test)
        }
    } else if cmd_eq(w, "/assert", "assert") {
        assert_command(&parts)
    } else if cmd_eq(w, "/debug_conveyor", "debug_conveyor") {
        CommandAction::Debug(DebugEventType::Conveyor)
    } else if cmd_eq(w, "/debug_machine", "debug_machine") {
        CommandAction::Debug(DebugEventType::Machine)
    } else if cmd_eq(w, "/debug_connection", "debug_connection") {
        CommandAction::Debug(DebugEventType::Connection)
    } else if cmd_eq(w, "/screenshot", "screenshot") {
        screenshot_command(&parts)
    } else {
        CommandAction::Unknown(string_of(&crate::text::chars_of(line)))
    }
}


/// A request to create a machine at a position (from `/spawn`, `/spawn_line` and `/test`).
#[derive(Clone, Copy, Debug, PartialEq, Eq, Structural)]
pub struct SpawnMachineEvent {
    pub position: Pos,
    pub machine_id: BlockType,
    pub direction: Option<u8>,
}

/// Position (x, z) of the `i`-th machine of a line: `i` steps from the start in
/// the direction with this code (0 north, 1 east, 2 south, 3 west, anything else north).
pub open spec fn line_xz(start_x: i32, start_z: i32, direction: u8, i: u32) -> (int, int) {
    if direction == 1 {
        (start_x + i, start_z as int)
    } else if direction == 2 {
        (start_x as int, start_z + i)
    } else if direction == 3 {
        (start_x - i, start_z as int)
    } else {
        (start_x as int, start_z - i)
    }
}

/// The `i`-th machine of a `/spawn_line`, at height 8.
pub open spec fn spec_line_event(start_x: i32, start_z: i32, direction: u8, i: u32, machine: BlockType) -> SpawnMachineEvent {
    let p = line_xz(start_x, start_z, direction, i);
    SpawnMachineEvent {
        position: Pos { x: p.0 as i32, y: 8, z: p.1 as i32 },
        machine_id: machine,
        direction: Some(direction),
    }
}

/// The line position stays within `i32`.
pub open spec fn line_fits(start_x: i32, start_z: i32, direction: u8, i: u32) -> bool {
    let p = line_xz(start_x, start_z, direction, i);
    &&& i <= i32::MAX
    &&& i32::MIN <= p.0 <= i32::MAX
    &&& i32::MIN <= p.1 <= i32::MAX
}

pub fn spawn_line_event(start_x: i32, start_z: i32, direction: u8, i: u32, machine: BlockType) -> (e: SpawnMachineEvent)
    requires
        line_fits(start_x, start_z, direction, i),
    ensures
        e == spec_line_event(start_x, start_z, direction, i, machine),
{
    let k = i as i32;
    let (x, z): (i32, i32) = match direction {
        1 => (start_x + k, start_z),
        2 => (start_x, start_z + k),
        3 => (start_x - k, start_z),
        _ => (start_x, start_z - k),
    };
    SpawnMachineEvent { position: Pos { x, y: 8, z }, machine_id: machine, direction: Some(direction) }
}

/// `/spawn_line`: `count` spawn events along the line from the start, one per
/// step, in order, all of the same machine and direction.
pub fn spawn_line_events(start_x: i32, start_z: i32, direction: u8, count: u32, machine: BlockType) -> (v: Vec<SpawnMachineEvent>)
    requires
        count == 0 || line_fits(start_x, start_z, direction, (count - 1) as u32),
    ensures
        v@.len() == count,
        forall|i: int| 0 <= i < count ==> #[trigger] v@[i] == spec_line_event(start_x, start_z, direction, i as u32, machine),
{
    let mut v: Vec<SpawnMachineEvent> = Vec::new();
    let mut i: u32 = 0;
    while i < count
        invariant
            i <= count,
            count == 0 || line_fits(start_x, start_z, direction, (count - 1) as u32),
            v@.len() == i,
            forall|j: int| 0 <= j < i ==> #[trigger] v@[j] == spec_line_event(start_x, start_z, direction, j as u32, machine),
        decreases count - i,
    {
        assert(line_fits(start_x, start_z, direction, i));
        v.push(spawn_line_event(start_x, start_z, direction, i, machine));
        i = i + 1;
    }
    v
}

/// `/test production`: a miner at the origin at height 8, three east-facing belts
/// after it, and a furnace at the end.
pub fn production_test_events() -> (v: Vec<SpawnMachineEvent>)
    ensures
        v@ == seq![
            SpawnMachineEvent { position: Pos { x: 0, y: 8, z: 0 }, machine_id: BlockType::MinerBlock, direction: None },
            SpawnMachineEvent { position: Pos { x: 1, y: 8, z: 0 }, machine_id: BlockType::ConveyorBlock, direction: Some(1u8) },
            SpawnMachineEvent { position: Pos { x: 2, y: 8, z: 0 }, machine_id: BlockType::ConveyorBlock, direction: Some(1u8) },
            SpawnMachineEvent { position: Pos { x: 3, y: 8, z: 0 }, machine_id: BlockType::ConveyorBlock, direction: Some(1u8) },
            SpawnMachineEvent { position: Pos { x: 4, y: 8, z: 0 }, machine_id: BlockType::FurnaceBlock, direction: None },
        ],
{
    let mut v: Vec<SpawnMachineEvent> = Vec::new();
    v.push(SpawnMachineEvent { position: Pos { x: 0, y: 8, z: 0 }, machine_id: BlockType::MinerBlock, direction: None });
    let mut i: i32 = 1;
    while i < 4
        invariant
            1 <= i <= 4,
            v@.len() == i,
            v@[0] == (SpawnMachineEvent { position: Pos { x: 0, y: 8, z: 0 }, machine_id: BlockType::MinerBlock, direction: None }),
            forall|k: int| 1 <= k < i ==> v@[k] == (SpawnMachineEvent { position: Pos { x: k as i32, y: 8, z: 0 }, machine_id: BlockType::ConveyorBlock, direction: Some(1u8) }),
        decreases 4 - i,
    {
        v.push(SpawnMachineEvent { position: Pos { x: i, y: 8, z: 0 }, machine_id: BlockType::ConveyorBlock, direction: Some(1) });
        i = i + 1;
    }
    v.push(SpawnMachineEvent { position: Pos { x: 4, y: 8, z: 0 }, machine_id: BlockType::FurnaceBlock, direction: None });
    assert(v@ =~= seq![
        SpawnMachineEvent { position: Pos { x: 0, y: 8, z: 0 }, machine_id: BlockType::MinerBlock, direction: None },
        SpawnMachineEvent { position: Pos { x: 1, y: 8, z: 0 }, machine_id: BlockType::ConveyorBlock, direction: Some(1u8) },
        SpawnMachineEvent { position: Pos { x: 2, y: 8, z: 0 }, machine_id: BlockType::ConveyorBlock, direction: Some(1u8) },
        SpawnMachineEvent { position: Pos { x: 3, y: 8, z: 0 }, machine_id: BlockType::ConveyorBlock, direction: Some(1u8) },
        SpawnMachineEvent { position: Pos { x: 4, y: 8, z: 0 }, machine_id: BlockType::FurnaceBlock, direction: None },
    ]);
    v
}

/// How much coal `/test production` hands the player for the furnace.
pub const PRODUCTION_TEST_COAL: u32 = 16;

/// `/test stress`: a ten by ten grid of east-facing belts at height 8, row by row in x.
pub fn stress_test_events() -> (v: Vec<SpawnMachineEvent>)
    ensures
        v@.len() == 100,
        forall|k: int| 0 <= k < 100 ==> #[trigger] v@[k] == (SpawnMachineEvent {
            position: Pos { x: (k / 10) as i32, y: 8, z: (k % 10) as i32 },
            machine_id: BlockType::ConveyorBlock,
            direction: Some(1u8),
        }),
{
    let mut v: Vec<SpawnMachineEvent> = Vec::new();
    let mut x: i32 = 0;
    while x < 10
        invariant
            0 <= x <= 10,
            v@.len() == 10 * x,
            forall|k: int| 0 <= k < v@.len() ==> #[trigger] v@[k] == (SpawnMachineEvent {
                position: Pos { x: (k / 10) as i32, y: 8, z: (k % 10) as i32 },
                machine_id: BlockType::ConveyorBlock,
                direction: Some(1u8),
            }),
        decreases 10 - x,
    {
        let mut z: i32 = 0;
        while z < 10
            invariant
                0 <= x < 10,
                0 <= z <= 10,
                v@.len() == 10 * x + z,
                forall|k: int| 0 <= k < v@.len() ==> #[trigger] v@[k] == (SpawnMachineEvent {
                    position: Pos { x: (k / 10) as i32, y: 8, z: (k % 10) as i32 },
                    machine_id: BlockType::ConveyorBlock,
                    direction: Some(1u8),
                }),
            decreases 10 - z,
        {
            proof {
                let k = 10 * x + z;
                assert(k / 10 == x && k % 10 == z) by (nonlinear_arith)
                    requires
                        k == 10 * x + z,
                        0 <= z < 10,
                        0 <= x,
                ;
            }
            v.push(SpawnMachineEvent { position: Pos { x, y: 8, z }, machine_id: BlockType::ConveyorBlock, direction: Some(1) });
            z = z + 1;
        }
        x = x + 1;
    }
    v
}

/// What the machine kind of a spawn request becomes.
#[derive(Clone, Copy, Debug, PartialEq, Eq, Structural)]
pub enum SpawnPlan {
    /// A straight belt facing this way.
    Conveyor(crate::geometry::Direction),
    Miner,
    Furnace,
    Crusher,
    /// Not a machine that can be spawned.
    Unsupported,
}

pub open spec fn spec_spawn_plan(machine: BlockType, direction: Option<u8>) -> SpawnPlan {
    match machine {
        BlockType::ConveyorBlock => SpawnPlan::Conveyor(
            crate::geometry::Direction::spec_from_code(
                match direction {
                    Some(d) => d,
                    None => 0,
                },
            ),
        ),
        BlockType::MinerBlock => SpawnPlan::Miner,
        BlockType::FurnaceBlock => SpawnPlan::Furnace,
        BlockType::CrusherBlock => SpawnPlan::Crusher,
        _ => SpawnPlan::Unsupported,
    }
}

/// How a spawn request is carried out: belts face the requested direction
/// (north when none is given); miners, furnaces and crushers face north.
pub fn spawn_plan(machine: BlockType, direction: Option<u8>) -> (p: SpawnPlan)
    ensures
        p == spec_spawn_plan(machine, direction),
{
    match machine {
        BlockType::ConveyorBlock => SpawnPlan::Conveyor(
            crate::geometry::Direction::from_code(
                match direction {
                    Some(d) => d,
                    None => 0,
                },
            ),
        ),
        BlockType::MinerBlock => SpawnPlan::Miner,
        BlockType::FurnaceBlock => SpawnPlan::Furnace,
        BlockType::CrusherBlock => SpawnPlan::Crusher,
        _ => SpawnPlan::Unsupported,
    }
}

/// Outcome of `/assert slot`.
#[derive(Clone, Copy, Debug, PartialEq, Eq, Structural)]
pub enum SlotCheck {
    Pass,
    /// The slot holds another kind or too few.
    Mismatch,
    Empty,
    InvalidIndex,
}

pub open spec fn spec_check_slot(slots: Seq<crate::inventory::Slot>, index: usize, item: BlockType, count: u32) -> SlotCheck {
    if index >= slots.len() {
        SlotCheck::InvalidIndex
    } else {
        match slots[index as int] {
            Some((t, c)) => if t == item && c >= count { SlotCheck::Pass } else { SlotCheck::Mismatch },
            None => SlotCheck::Empty,
        }
    }
}

/// `/assert slot`: slot `index` holds at least `count` of `item`.
pub fn check_slot(slots: &Vec<crate::inventory::Slot>, index: usize, item: BlockType, count: u32) -> (r: SlotCheck)
    ensures
        r == spec_check_slot(slots@, index, item, count),
{
    if index < slots.len() {
        match slots[index] {
            Some((t, c)) => if t == item && c >= count { SlotCheck::Pass } else { SlotCheck::Mismatch },
            None => SlotCheck::Empty,
        }
    } else {
        SlotCheck::InvalidIndex
    }
}

/// `/clear`: empty every slot.
pub fn clear_slots(slots: &mut Vec<crate::inventory::Slot>)
    ensures
        final(slots)@.len() == old(slots)@.len(),
        forall|i: int| 0 <= i < final(slots)@.len() ==> final(slots)@[i] is None,
{
    let mut i: usize = 0;
    while i < slots.len()
        invariant
            i <= slots.len(),
            slots@.len() == old(slots)@.len(),
            forall|j: int| 0 <= j < i ==> slots@[j] is None,
        decreases slots.len() - i,
    {
        slots.set(i, None);
        i = i + 1;
    }
}

/// What a machine check needs to know of one machine.
#[derive(Clone, Copy, Debug, PartialEq, Eq, Structural)]
pub struct MachineSummary {
    pub kind: BlockType,
    /// Its processing progress is above zero.
    pub busy: bool,
    /// Its first output slot holds an item.
    pub has_output: bool,
}

pub open spec fn spec_count_kind(ms: Seq<MachineSummary>, kind: BlockType) -> nat
    decreases ms.len(),
{
    if ms.len() == 0 {
        0
    } else {
        spec_count_kind(ms.drop_last(), kind) + (if ms.last().kind == kind { 1nat } else { 0 })
    }
}

pub open spec fn spec_count_working_miners(ms: Seq<MachineSummary>) -> nat
    decreases ms.len(),
{
    if ms.len() == 0 {
        0
    } else {
        spec_count_working_miners(ms.drop_last()) + (if ms.last().kind == BlockType::MinerBlock
            && (ms.last().busy || ms.last().has_output) {
            1nat
        } else {
            0
        })
    }
}

/// Number of machines of a kind.
pub fn count_kind(ms: &Vec<MachineSummary>, kind: BlockType) -> (n: usize)
    ensures
        n == spec_count_kind(ms@, kind),
{
    let mut n: usize = 0;
    let mut i: usize = 0;
    while i < ms.len()
        invariant
            i <= ms.len(),
            n == spec_count_kind(ms@.take(i as int), kind),
            n <= i,
        decreases ms.len() - i,
    {
        proof {
            assert(ms@.take(i as int + 1).drop_last() =~= ms@.take(i as int));
        }
        if ms[i].kind == kind {
            n = n + 1;
        }
        i = i + 1;
    }
    assert(ms@.take(i as int) =~= ms@);
    n
}

/// Number of miners that are mining or have output waiting.
pub fn count_working_miners(ms: &Vec<MachineSummary>) -> (n: usize)
    ensures
        n == spec_count_working_miners(ms@),
{
    let mut n: usize = 0;
    let mut i: usize = 0;
    while i < ms.len()
        invariant
            i <= ms.len(),
            n == spec_count_working_miners(ms@.take(i as int)),
            n <= i,
        decreases ms.len() - i,
    {
        proof {
            assert(ms@.take(i as int + 1).drop_last() =~= ms@.take(i as int));
        }
        let m = ms[i];
        if m.kind == BlockType::MinerBlock && (m.busy || m.has_output) {
            n = n + 1;
        }
        i = i + 1;
    }
    assert(ms@.take(i as int) =~= ms@);
    n
}

/// Result of a machine check: whether it passed, the count it found and the
/// count it compares against (total miners, total belts, or the minimum).
#[derive(Clone, Copy, Debug, PartialEq, Eq, Structural)]
pub struct AssertOutcome {
    pub pass: bool,
    pub found: u128,
    pub reference: u128,
}

pub open spec fn spec_item_sum(v: Seq<usize>) -> nat
    decreases v.len(),
{
    if v.len() == 0 {
        0
    } else {
        spec_item_sum(v.drop_last()) + (v.last() as nat)
    }
}

pub open spec fn spec_nonzero_count(v: Seq<usize>) -> nat
    decreases v.len(),
{
    if v.len() == 0 {
        0
    } else {
        spec_nonzero_count(v.drop_last()) + (if v.last() > 0 { 1nat } else { 0 })
    }
}

/// Evaluate a machine check over the machines and the item counts of every belt.
///
/// Miners: passes when some miner works (found: working miners, reference: all
/// miners). Belts: passes when some belt carries an item (found: items carried,
/// reference: belts carrying items). Count: passes when there are at least the
/// minimum of that kind (found: how many, reference: the minimum).
pub fn evaluate_machine_assert(
    t: MachineAssertType,
    machines: &Vec<MachineSummary>,
    belt_items: &Vec<usize>,
) -> (r: AssertOutcome)
    ensures
        match t {
            MachineAssertType::MinerWorking => r == (AssertOutcome {
                pass: spec_count_working_miners(machines@) > 0,
                found: spec_count_working_miners(machines@) as u128,
                reference: spec_count_kind(machines@, BlockType::MinerBlock) as u128,
            }),
            MachineAssertType::ConveyorHasItems => r == (AssertOutcome {
                pass: spec_item_sum(belt_items@) > 0,
                found: spec_item_sum(belt_items@) as u128,
                reference: spec_nonzero_count(belt_items@) as u128,
            }),
            MachineAssertType::MachineCount { machine, min_count } => r == (AssertOutcome {
                pass: spec_count_kind(machines@, machine) >= min_count,
                found: spec_count_kind(machines@, machine) as u128,
                reference: min_count as u128,
            }),
        },
{
    match t {
        MachineAssertType::MinerWorking => {
            let working = count_working_miners(machines);
            let total = count_kind(machines, BlockType::MinerBlock);
            AssertOutcome { pass: working > 0, found: working as u128, reference: total as u128 }
        },
        MachineAssertType::ConveyorHasItems => {
            let mut sum: u128 = 0;
            let mut belts: u128 = 0;
            let mut i: usize = 0;
            while i < belt_items.len()
                invariant
                    i <= belt_items.len(),
                    sum == spec_item_sum(belt_items@.take(i as int)),
                    belts == spec_nonzero_count(belt_items@.take(i as int)),
                    sum <= i * 18446744073709551615,
                    belts <= i,
                decreases belt_items.len() - i,
            {
                proof {
                    assert(belt_items@.take(i as int + 1).drop_last() =~= belt_items@.take(i as int));
                }
                sum = sum + belt_items[i] as u128;
                if belt_items[i] > 0 {
                    belts = belts + 1;
                }
                i = i + 1;
            }
            assert(belt_items@.take(i as int) =~= belt_items@);
            AssertOutcome { pass: sum > 0, found: sum, reference: belts }
        },
        MachineAssertType::MachineCount { machine, min_count } => {
            let n = count_kind(machines, machine);
            AssertOutcome { pass: n as u128 >= min_count as u128, found: n as u128, reference: min_count as u128 }
        },
    }
}

/// Run a command line against the game state it changes directly: creative
/// mode, and the player's inventory for `give` (what does not fit is dropped),
/// `clear`, and the coal that the production test hands out. The parsed action is returned; everything it asks of the rest
/// of the game (saving, loading, moving the player or camera, placing blocks,
/// spawning machines, checks, debug dumps, screenshots) is carried out by the
/// caller from it.
pub fn execute_command(line: &str, creative: &mut bool, inv: &mut PlayerInventory) -> (a: CommandAction)
    ensures
        a@ == spec_parse_command(line@),
        *final(creative) == (match a@ {
            ParsedCommand::SetCreative(b) => b,
            _ => *old(creative),
        }),
        match a@ {
            ParsedCommand::Give { item, count } => final(inv).slots@ == spec_store(
                old(inv).slots@,
                item,
                count as nat,
                0,
                old(inv).slots@.len() as int,
                old(inv).max_stack,
            ).0,
            ParsedCommand::TestProduction => final(inv).slots@ == spec_store(
                old(inv).slots@,
                BlockType::Coal,
                PRODUCTION_TEST_COAL as nat,
                0,
                old(inv).slots@.len() as int,
                old(inv).max_stack,
            ).0,
            ParsedCommand::ClearInventory => final(inv).slots@.len() == old(inv).slots@.len()
                && forall|i: int| 0 <= i < final(inv).slots@.len() ==> final(inv).slots@[i] is None,
            _ => final(inv).slots@ == old(inv).slots@,
        },
        final(inv).selected_slot == old(inv).selected_slot,
        final(inv).max_stack == old(inv).max_stack,
{
    let a = parse_command(line);
    match &a {
        CommandAction::SetCreative(b) => {
            *creative = *b;
        },
        CommandAction::Give { item, count } => {
            let _ = inv.add_item_by_id(*item, *count);
        },
        CommandAction::ClearInventory => {
            clear_slots(&mut inv.slots);
        },
        CommandAction::TestProduction => {
            let _ = inv.add_item_by_id(BlockType::Coal, PRODUCTION_TEST_COAL);
        },
        _ => {},
    }
    a
}

/// The step along a spawn line for each direction code: 0 north (z - 1),
/// 1 east (x + 1), 2 south (z + 1), 3 west (x - 1); any other code north.
pub open spec fn line_step(direction: u8) -> (int, int) {
    if direction == 1 {
        (1, 0)
    } else if direction == 2 {
        (0, 1)
    } else if direction == 3 {
        (-1, 0)
    } else {
        (0, -1)
    }
}

/// The `i`-th machine of a spawn line stands `i` steps from the start along the
/// direction's step, at height 8, with the line's machine and direction; a
/// line east and a line west from one start run in opposite ways, as do north
/// and south, and neighbouring machines are one step apart.
pub proof fn law_spawn_line_positions(start_x: i32, start_z: i32, direction: u8, i: u32, machine: BlockType)
    requires
        line_fits(start_x, start_z, direction, i),
    ensures
        spec_line_event(start_x, start_z, direction, i, machine).position.x == start_x + i * line_step(direction).0,
        spec_line_event(start_x, start_z, direction, i, machine).position.z == start_z + i * line_step(direction).1,
        spec_line_event(start_x, start_z, direction, i, machine).position.y == 8,
        spec_line_event(start_x, start_z, direction, i, machine).machine_id == machine,
        spec_line_event(start_x, start_z, direction, i, machine).direction == Some(direction),
        line_xz(start_x, start_z, 1, i).0 - start_x == -(line_xz(start_x, start_z, 3, i).0 - start_x),
        line_xz(start_x, start_z, 1, i).0 - start_x == i,
        line_xz(start_x, start_z, 2, i).1 - start_z == -(line_xz(start_x, start_z, 0, i).1 - start_z),
        line_xz(start_x, start_z, 2, i).1 - start_z == i,
        i < u32::MAX ==> line_xz(start_x, start_z, direction, (i + 1) as u32).0 - line_xz(start_x, start_z, direction, i).0
            == line_step(direction).0,
        i < u32::MAX ==> line_xz(start_x, start_z, direction, (i + 1) as u32).1 - line_xz(start_x, start_z, direction, i).1
            == line_step(direction).1,
{
    let s = line_step(direction);
    if direction == 1 {
        assert(s == (1int, 0int));
        assert(i * s.0 == i && i * s.1 == 0) by (nonlinear_arith) requires s == (1int, 0int);
    } else if direction == 2 {
        assert(i * s.0 == 0 && i * s.1 == i) by (nonlinear_arith) requires s == (0int, 1int);
    } else if direction == 3 {
        assert(i * s.0 == -i && i * s.1 == 0) by (nonlinear_arith) requires s == (-1int, 0int);
    } else {
        assert(i * s.0 == 0 && i * s.1 == -i) by (nonlinear_arith) requires s == (0int, -1int);
    }
}

} // verus!
