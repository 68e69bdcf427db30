//! Tutorial progress: which game events complete the current step, belt-laying
//! streaks, first openings of the inventory, newly produced items and the
//! progress label.

use vstd::prelude::*;
use crate::geometry::Pos;
use crate::items::BlockType;
use crate::text::{dec_digits, decimal_string, string_of, chars_of};

verus! {

/// What a tutorial step asks for (walking is measured in the game's float
/// distances and handled beside these).
#[derive(Clone, Copy, Debug, PartialEq, Eq, Structural)]
pub enum TutorialAction {
    BreakBlock,
    OpenInventory,
    PlaceMachine(BlockType),
    PlaceConveyors { count: u32 },
    ProduceItem(BlockType),
}

/// A game event the tutorial listens to.
#[derive(Clone, Copy, Debug, PartialEq, Eq, Structural)]
pub enum TutorialEvent {
    BlockBroken,
    InventoryOpened,
    MachinePlaced(BlockType),
    ConveyorPlaced { position: Pos },
    ItemProduced(BlockType),
}

/// The belt-laying streak of the current step.
#[derive(Clone, Copy, Debug, PartialEq, Eq, Structural)]
pub struct ConveyorStreak {
    pub conveyor_count: u32,
    pub last_conveyor_pos: Option<Pos>,
}

pub open spec fn abs_int(v: int) -> int {
    if v < 0 { -v } else { v }
}

/// `b` is one block from `a` along exactly one axis.
pub open spec fn spec_adjacent(a: Pos, b: Pos) -> bool {
    abs_int(b.x - a.x) + abs_int(b.y - a.y) + abs_int(b.z - a.z) == 1
}

pub fn adjacent(a: Pos, b: Pos) -> (r: bool)
    ensures
        r == spec_adjacent(a, b),
{
    let dx: i64 = b.x as i64 - a.x as i64;
    let dy: i64 = b.y as i64 - a.y as i64;
    let dz: i64 = b.z as i64 - a.z as i64;
    let ax: i64 = if dx < 0 { -dx } else { dx };
    let ay: i64 = if dy < 0 { -dy } else { dy };
    let az: i64 = if dz < 0 { -dz } else { dz };
    ax + ay + az == 1
}

/// The streak after a belt is placed at `p`: it grows when the belt is next to
/// the previous one (or is the first), and starts again at one otherwise.
pub open spec fn spec_streak_after(s: ConveyorStreak, p: Pos) -> ConveyorStreak {
    let consecutive = match s.last_conveyor_pos {
        Some(last) => spec_adjacent(last, p),
        None => true,
    };
    ConveyorStreak {
        conveyor_count: if consecutive { (s.conveyor_count + 1) as u32 } else { 1 },
        last_conveyor_pos: Some(p),
    }
}

/// Whether `e` completes a step asking for `a` (the streak already counts `e`).
pub open spec fn spec_completes(a: TutorialAction, e: TutorialEvent, streak: ConveyorStreak) -> bool {
    match (a, e) {
        (TutorialAction::BreakBlock, TutorialEvent::BlockBroken) => true,
        (TutorialAction::OpenInventory, TutorialEvent::InventoryOpened) => true,
        (TutorialAction::PlaceMachine(x), TutorialEvent::MachinePlaced(y)) => x == y,
        (TutorialAction::PlaceConveyors { count }, TutorialEvent::ConveyorPlaced { .. }) => streak.conveyor_count >= count,
        (TutorialAction::ProduceItem(x), TutorialEvent::ItemProduced(y)) => x == y,
        _ => false,
    }
}

/// The streak after one event: only a belt placement during a belt step changes it.
pub open spec fn spec_streak_step(a: TutorialAction, e: TutorialEvent, s: ConveyorStreak) -> ConveyorStreak {
    match (a, e) {
        (TutorialAction::PlaceConveyors { .. }, TutorialEvent::ConveyorPlaced { position }) => spec_streak_after(s, position),
        _ => s,
    }
}

/// Read the first `n` events of a frame for the step `a`: the streak after
/// them, and whether one of them completed the step (reading stops there).
pub open spec fn spec_read_events(a: TutorialAction, events: Seq<TutorialEvent>, s: ConveyorStreak, n: int) -> (ConveyorStreak, bool)
    decreases n,
{
    if n <= 0 {
        (s, false)
    } else {
        let prev = spec_read_events(a, events, s, n - 1);
        if prev.1 {
            prev
        } else {
            let s2 = spec_streak_step(a, events[n - 1], prev.0);
            (s2, spec_completes(a, events[n - 1], s2))
        }
    }
}

/// Read this frame's events for the current step; returns whether the step is
/// completed (the caller then moves to the next step). Events after the
/// completing one are not read.
pub fn process_tutorial_events(a: TutorialAction, events: &Vec<TutorialEvent>, streak: &mut ConveyorStreak) -> (done: bool)
    requires
        old(streak).conveyor_count + events@.len() <= u32::MAX,
    ensures
        (*final(streak), done) == spec_read_events(a, events@, *old(streak), events@.len() as int),
{
    let ghost start = *streak;
    let mut i: usize = 0;
    while i < events.len()
        invariant
            i <= events.len(),
            start.conveyor_count + events@.len() <= u32::MAX,
            start == *old(streak),
            (*streak, false) == spec_read_events(a, events@, start, i as int),
            streak.conveyor_count <= start.conveyor_count + i,
        decreases events.len() - i,
    {
        let e = events[i];
        match (a, e) {
            (TutorialAction::PlaceConveyors { .. }, TutorialEvent::ConveyorPlaced { position }) => {
                let consecutive = match streak.last_conveyor_pos {
                    Some(last) => adjacent(last, position),
                    None => true,
                };
                streak.conveyor_count = if consecutive { streak.conveyor_count + 1 } else { 1 };
                streak.last_conveyor_pos = Some(position);
            },
            _ => {},
        }
        let done = match (a, e) {
            (TutorialAction::BreakBlock, TutorialEvent::BlockBroken) => true,
            (TutorialAction::OpenInventory, TutorialEvent::InventoryOpened) => true,
            (TutorialAction::PlaceMachine(x), TutorialEvent::MachinePlaced(y)) => x == y,
            (TutorialAction::PlaceConveyors { count }, TutorialEvent::ConveyorPlaced { .. }) => streak.conveyor_count >= count,
            (TutorialAction::ProduceItem(x), TutorialEvent::ItemProduced(y)) => x == y,
            _ => false,
        };
        if done {
            proof {
                assert(spec_read_events(a, events@, start, i as int + 1) == (*streak, true));
                lemma_read_stops(a, events@, start, i as int + 1, events@.len() as int);
            }
            return true;
        }
        i = i + 1;
    }
    false
}

proof fn lemma_read_stops(a: TutorialAction, events: Seq<TutorialEvent>, s: ConveyorStreak, k: int, n: int)
    requires
        0 <= k <= n,
        spec_read_events(a, events, s, k).1,
    ensures
        spec_read_events(a, events, s, n) == spec_read_events(a, events, s, k),
    decreases n - k,
{
    if k < n {
        lemma_read_stops(a, events, s, k, n - 1);
    }
}

/// The inventory counts as opened when it is visible now and was not last frame.
pub fn track_inventory_open(last_open: &mut bool, is_open: bool) -> (opened: bool)
    ensures
        opened == (is_open && !*old(last_open)),
        *final(last_open) == is_open,
{
    let opened = is_open && !*last_open;
    *last_open = is_open;
    opened
}

/// Read the first `n` storage entries: the items whose count went up, in entry
/// order, and the counts remembered afterwards.
pub open spec fn spec_track(last: Seq<u32>, items: Seq<(BlockType, u32)>, n: int) -> (Seq<BlockType>, Seq<u32>)
    decreases n,
{
    if n <= 0 {
        (Seq::empty(), last)
    } else {
        let prev = spec_track(last, items, n - 1);
        let (b, c) = items[n - 1];
        let i = crate::items::spec_item_index(b) as int;
        let produced = if c > prev.1[i] { prev.0.push(b) } else { prev.0 };
        (produced, prev.1.update(i, c))
    }
}

/// An item counts as produced when its stored amount is higher than the last
/// amount seen for it (never seen counts as zero); the amount is remembered.
pub fn track_production(last: &mut Vec<u32>, items: &Vec<(BlockType, u32)>) -> (produced: Vec<BlockType>)
    requires
        old(last)@.len() == 12,
    ensures
        (produced@, final(last)@) == spec_track(old(last)@, items@, items@.len() as int),
{
    let ghost start = last@;
    let mut produced: Vec<BlockType> = Vec::new();
    let mut k: usize = 0;
    while k < items.len()
        invariant
            k <= items.len(),
            last@.len() == 12,
            start.len() == 12,
            (produced@, last@) == spec_track(start, items@, k as int),
        decreases items.len() - k,
    {
        let (b, c) = items[k];
        let i = b.index() as usize;
        proof {
            let p = spec_track(start, items@, k as int);
            assert(p.1.len() == 12) by {
                lemma_track_len(start, items@, k as int);
            }
        }
        if c > last[i] {
            produced.push(b);
        }
        last.set(i, c);
        k = k + 1;
    }
    produced
}

proof fn lemma_track_len(last: Seq<u32>, items: Seq<(BlockType, u32)>, n: int)
    requires
        last.len() == 12,
    ensures
        spec_track(last, items, n).1.len() == 12,
    decreases n,
{
    if n > 0 {
        lemma_track_len(last, items, n - 1);
    }
}

/// What the tutorial panel and the quest panel show.
#[derive(Clone, Copy, Debug, PartialEq, Eq, Structural)]
pub struct TutorialPanels {
    /// The quest panel appears once the tutorial is done.
    pub quest_visible: bool,
    /// The tutorial panel shows while the tutorial runs and is switched on.
    pub tutorial_visible: bool,
}

pub fn tutorial_panels(completed: bool, shown: bool) -> (p: TutorialPanels)
    ensures
        p.quest_visible == completed,
        p.tutorial_visible == (!completed && shown),
{
    TutorialPanels { quest_visible: completed, tutorial_visible: !completed && shown }
}

/// "done/target" for a counted step, the done part capped at the target.
pub open spec fn spec_progress_label(current: u32, target: u32) -> Seq<char> {
    dec_digits((if current < target { current } else { target }) as nat) + seq!['/'] + dec_digits(target as nat)
}

pub fn progress_label(current: u32, target: u32) -> (s: String)
    ensures
        s@ == spec_progress_label(current, target),
{
    let a = decimal_string(if current < target { current as u64 } else { target as u64 });
    let b = decimal_string(target as u64);
    let ca = chars_of(a.as_str());
    let cb = chars_of(b.as_str());
    let mut v: Vec<char> = Vec::new();
    let mut i: usize = 0;
    while i < ca.len()
        invariant
            i <= ca.len(),
            v@ == ca@.take(i as int),
        decreases ca.len() - i,
    {
        v.push(ca[i]);
        assert(ca@.take(i as int + 1) =~= ca@.take(i as int).push(ca@[i as int]));
        i = i + 1;
    }
    v.push('/');
    let mut j: usize = 0;
    while j < cb.len()
        invariant
            j <= cb.len(),
            v@ == ca@ + seq!['/'] + cb@.take(j as int),
        decreases cb.len() - j,
    {
        v.push(cb[j]);
        assert(cb@.take(j as int + 1) =~= cb@.take(j as int).push(cb@[j as int]));
        j = j + 1;
    }
    assert(ca@.take(ca@.len() as int) =~= ca@);
    assert(cb@.take(cb@.len() as int) =~= cb@);
    string_of(&v)
}

/// Laying belts in a line, each next to the last, makes the streak count them all.
pub proof fn law_streak_counts_line(s: ConveyorStreak, p: Pos, q: Pos)
    requires
        s.last_conveyor_pos == Some(p),
        spec_adjacent(p, q),
        s.conveyor_count < u32::MAX,
    ensures
        spec_streak_after(s, q).conveyor_count == s.conveyor_count + 1,
        spec_streak_after(s, q).last_conveyor_pos == Some(q),
{
}

/// A belt away from the last one starts the streak again at one.
pub proof fn law_streak_restarts(s: ConveyorStreak, p: Pos, q: Pos)
    requires
        s.last_conveyor_pos == Some(p),
        !spec_adjacent(p, q),
    ensures
        spec_streak_after(s, q).conveyor_count == 1,
{
}

} // verus!
