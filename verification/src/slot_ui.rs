//! Clicks in the open inventory screen: slot clicks, shift-moves, the trash
//! slot and the creative catalogue.

use vstd::prelude::*;
use crate::inventory::{
    amount, click_fits, click_slot, held_within, law_click_within_limit, law_shift_move_conserves, law_store_conserves,
    shift_click_move, shift_target, spec_click, spec_shift_move, spec_store, stacks_within, total, PlayerInventory, Slot,
};
use crate::items::BlockType;

verus! {

/// A click on inventory slot `idx`: with shift held the stack moves to the
/// other area (hotbar to main inventory and back) and the hand is untouched;
/// otherwise the slot and the held stack are exchanged or merged (see
/// [`spec_click`]).
pub fn inventory_slot_click(inv: &mut PlayerInventory, held: &mut Slot, idx: usize, shift: bool, hotbar: usize)
    requires
        idx < old(inv).slots@.len(),
        hotbar <= old(inv).slots@.len(),
        !shift ==> click_fits(old(inv).slots@[idx as int], *old(held)),
    ensures
        shift ==> final(inv).slots@ == spec_shift_move(old(inv).slots@, idx as int, hotbar as int, old(inv).max_stack).0
            && *final(held) == *old(held),
        !shift ==> final(inv).slots@ == old(inv).slots@.update(
            idx as int,
            spec_click(old(inv).slots@[idx as int], *old(held), old(inv).max_stack).0,
        ) && *final(held) == spec_click(old(inv).slots@[idx as int], *old(held), old(inv).max_stack).1,
        final(inv).selected_slot == old(inv).selected_slot,
        final(inv).max_stack == old(inv).max_stack,
{
    let max_stack = inv.max_stack;
    if shift {
        let _ = shift_click_move(&mut inv.slots, idx, hotbar, max_stack);
    } else {
        click_slot(&mut inv.slots, held, idx, max_stack);
    }
}

/// Shift-move the stack in slot `idx`; returns whether anything moved.
pub fn perform_shift_click_move(inv: &mut PlayerInventory, idx: usize, hotbar: usize) -> (moved: bool)
    requires
        idx < old(inv).slots@.len(),
        hotbar <= old(inv).slots@.len(),
    ensures
        (final(inv).slots@, moved) == spec_shift_move(old(inv).slots@, idx as int, hotbar as int, old(inv).max_stack),
        final(inv).selected_slot == old(inv).selected_slot,
        final(inv).max_stack == old(inv).max_stack,
{
    let max_stack = inv.max_stack;
    shift_click_move(&mut inv.slots, idx, hotbar, max_stack)
}

/// Holding shift and the primary button over a slot keeps moving stacks, one
/// move per repeat interval. `hovered` is the hovered slot, if any. Returns
/// whether the repeat timer restarts (only when something moved).
pub fn inventory_continuous_shift_click(
    inv: &mut PlayerInventory,
    shift_held: bool,
    primary_held: bool,
    timer_finished: bool,
    hovered: Option<usize>,
    hotbar: usize,
) -> (restart: bool)
    requires
        hovered matches Some(i) ==> i < old(inv).slots@.len(),
        hotbar <= old(inv).slots@.len(),
    ensures
        (shift_held && primary_held && timer_finished && hovered is Some) ==> {
            let r = spec_shift_move(old(inv).slots@, hovered.unwrap() as int, hotbar as int, old(inv).max_stack);
            final(inv).slots@ == r.0 && restart == r.1
        },
        !(shift_held && primary_held && timer_finished && hovered is Some) ==> final(inv).slots@ == old(inv).slots@ && !restart,
        final(inv).selected_slot == old(inv).selected_slot,
        final(inv).max_stack == old(inv).max_stack,
{
    if !shift_held || !primary_held || !timer_finished {
        return false;
    }
    match hovered {
        Some(i) => perform_shift_click_move(inv, i, hotbar),
        None => false,
    }
}

/// Pressing the trash slot destroys the held stack.
pub fn trash_slot_click(held: &mut Slot, inventory_open: bool, pressed: bool)
    ensures
        *final(held) == (if inventory_open && pressed { None } else { *old(held) }),
{
    if inventory_open && pressed {
        *held = None;
    }
}

/// Pressing an item of the creative catalogue puts a full stack of 64 of it in
/// hand (whatever was held is replaced), while the catalogue is open in
/// creative mode.
pub fn creative_inventory_click(held: &mut Slot, inventory_open: bool, creative: bool, pressed: Option<BlockType>)
    ensures
        *final(held) == (match pressed {
            Some(b) => if inventory_open && creative { Some((b, 64u32)) } else { *old(held) },
            None => *old(held),
        }),
{
    if !inventory_open || !creative {
        return;
    }
    if let Some(b) = pressed {
        *held = Some((b, 64));
    }
}

/// The slots and the held stack after a press on slot `idx` (see
/// [`inventory_slot_click`]).
pub open spec fn spec_slot_press(slots: Seq<Slot>, held: Slot, idx: int, shift: bool, hotbar: int, max_stack: u32) -> (Seq<Slot>, Slot) {
    if shift {
        (spec_shift_move(slots, idx, hotbar, max_stack).0, held)
    } else {
        (slots.update(idx, spec_click(slots[idx], held, max_stack).0), spec_click(slots[idx], held, max_stack).1)
    }
}

/// A press on an inventory slot neither makes nor loses items: for every kind,
/// the count over the slots plus the held stack stays the same. Every stack
/// stays within the stack limit. A plain press changes only the pressed slot;
/// a shift press changes only the pressed slot and slots of the other area
/// (main inventory for a hotbar slot, hotbar for a main slot). The limit must
/// leave room to add two stacks in a `u32`, as the merge adds them.
pub proof fn law_inventory_slot_click(
    slots: Seq<Slot>,
    held: Slot,
    idx: int,
    shift: bool,
    hotbar: int,
    max_stack: u32,
    x: BlockType,
)
    requires
        0 <= idx < slots.len(),
        0 <= hotbar <= slots.len(),
        stacks_within(slots, max_stack),
        held_within(held, max_stack),
        2 * max_stack <= u32::MAX,
    ensures
        ({
            let r = spec_slot_press(slots, held, idx, shift, hotbar, max_stack);
            let area = shift_target(idx, hotbar, slots.len() as int);
            &&& r.0.len() == slots.len()
            &&& total(r.0, x) + amount(r.1, x) == total(slots, x) + amount(held, x)
            &&& stacks_within(r.0, max_stack)
            &&& held_within(r.1, max_stack)
            &&& forall|j: int| 0 <= j < slots.len() && j != idx && (!shift || j < area.0 || j >= area.1)
                ==> #[trigger] r.0[j] == slots[j]
        }),
{
    if shift {
        law_shift_move_conserves(slots, idx, hotbar, max_stack, x);
        match slots[idx] {
            None => {},
            Some((t, c)) => {
                let area = shift_target(idx, hotbar, slots.len() as int);
                let s0 = slots.update(idx, None);
                law_store_conserves(s0, t, c as nat, area.0, area.1, max_stack, x);
                let st = spec_store(s0, t, c as nat, area.0, area.1, max_stack);
                let r = spec_slot_press(slots, held, idx, shift, hotbar, max_stack);
                assert forall|j: int| 0 <= j < slots.len() && j != idx && (j < area.0 || j >= area.1)
                    implies #[trigger] r.0[j] == slots[j] by {
                    assert(st.0[j] == s0[j]);
                    assert(s0[j] == slots[j]);
                }
            },
        }
    } else {
        law_click_within_limit(slots, held, idx, max_stack, x);
    }
}

} // verus!
