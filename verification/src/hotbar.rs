//! The hotbar: which slot is selected, how each slot is drawn, and what the
//! first-person held item shows.

use vstd::prelude::*;
use crate::inventory::Slot;
use crate::items::BlockType;
use crate::text::{dec_digits, decimal_string};

verus! {

/// How a hotbar slot is drawn.
#[derive(Clone, Copy, Debug, PartialEq, Eq, Structural)]
pub enum SlotStyle {
    /// The selected slot (highlighted whether or not it holds anything).
    Selected,
    /// An unselected slot holding items.
    Filled,
    /// An unselected empty slot.
    Empty,
}

pub fn slot_style(selected: bool, has_item: bool) -> (s: SlotStyle)
    ensures
        s == (if selected { SlotStyle::Selected } else if has_item { SlotStyle::Filled } else { SlotStyle::Empty }),
{
    if selected {
        SlotStyle::Selected
    } else if has_item {
        SlotStyle::Filled
    } else {
        SlotStyle::Empty
    }
}

/// The count shown on a slot: the amount in decimal when more than one, else nothing.
pub open spec fn spec_count_label(slot: Slot) -> Seq<char> {
    match slot {
        Some((_, c)) => if c > 1 { dec_digits(c as nat) } else { Seq::empty() },
        None => Seq::empty(),
    }
}

pub fn count_label(slot: Slot) -> (s: String)
    ensures
        s@ == spec_count_label(slot),
{
    match slot {
        Some((_, c)) => if c > 1 {
            decimal_string(c as u64)
        } else {
            String::new()
        },
        None => String::new(),
    }
}

/// One wheel notch: up selects the slot to the left (wrapping to the last),
/// down the slot to the right (wrapping to the first); no movement keeps it.
pub open spec fn spec_scroll(selected: usize, notch: i8, hotbar: usize) -> usize {
    if notch > 0 {
        if selected > 0 { (selected - 1) as usize } else { (hotbar - 1) as usize }
    } else if notch < 0 {
        if selected < hotbar - 1 { (selected + 1) as usize } else { 0 }
    } else {
        selected
    }
}

/// The selection after the first `n` wheel notches.
pub open spec fn spec_scroll_all(selected: usize, notches: Seq<i8>, hotbar: usize, n: int) -> usize
    decreases n,
{
    if n <= 0 {
        selected
    } else {
        spec_scroll(spec_scroll_all(selected, notches, hotbar, n - 1), notches[n - 1], hotbar)
    }
}

/// The last number key pressed among the first `n` (slot index), if any.
pub open spec fn last_pressed(keys: Seq<bool>, n: int) -> Option<usize>
    decreases n,
{
    if n <= 0 {
        None
    } else if keys[n - 1] {
        Some((n - 1) as usize)
    } else {
        last_pressed(keys, n - 1)
    }
}

/// Hotbar selection for one frame: when the hotbar may be used, the wheel
/// notches move the selection in turn, then a pressed number key (the last one
/// if several) selects its slot directly.
pub fn select_block_type(selected: &mut usize, allowed: bool, notches: &Vec<i8>, number_keys: &Vec<bool>, hotbar: usize)
    requires
        hotbar >= 1,
    ensures
        *final(selected) == (if !allowed {
            *old(selected)
        } else {
            match last_pressed(number_keys@, number_keys@.len() as int) {
                Some(k) => k,
                None => spec_scroll_all(*old(selected), notches@, hotbar, notches@.len() as int),
            }
        }),
{
    if !allowed {
        return;
    }
    let ghost start = *selected;
    let mut i: usize = 0;
    while i < notches.len()
        invariant
            i <= notches.len(),
            hotbar >= 1,
            *selected == spec_scroll_all(start, notches@, hotbar, i as int),
        decreases notches.len() - i,
    {
        let n = notches[i];
        if n > 0 {
            if *selected > 0 {
                *selected = *selected - 1;
            } else {
                *selected = hotbar - 1;
            }
        } else if n < 0 {
            if *selected < hotbar - 1 {
                *selected = *selected + 1;
            } else {
                *selected = 0;
            }
        }
        i = i + 1;
    }
    let ghost scrolled = *selected;
    let mut k: usize = 0;
    while k < number_keys.len()
        invariant
            k <= number_keys.len(),
            *selected == (match last_pressed(number_keys@, k as int) {
                Some(j) => j,
                None => scrolled,
            }),
        decreases number_keys.len() - k,
    {
        if number_keys[k] {
            *selected = k;
        }
        k = k + 1;
    }
}

/// What to do with the first-person held item this frame.
#[derive(Clone, Copy, Debug, PartialEq, Eq, Structural)]
pub enum HeldItemAction {
    /// Nothing selected: hide the cube and remove any model.
    HideAll,
    /// The shown item is still the selected one.
    Keep,
    /// Show the newly selected item (its model, or the coloured cube).
    Show(BlockType),
}

/// Which item the first-person view shows.
#[derive(Clone, Copy, Debug, PartialEq, Eq, Structural)]
pub struct HeldItemDisplayState {
    pub current_item: Option<BlockType>,
}

impl HeldItemDisplayState {
    pub fn new() -> (s: HeldItemDisplayState)
        ensures
            s.current_item is None,
    {
        HeldItemDisplayState { current_item: None }
    }

    /// Follow the selected item: nothing selected hides everything and forgets
    /// the shown item; a change shows the new one; no change does nothing.
    pub fn update(&mut self, selected: Option<BlockType>) -> (a: HeldItemAction)
        ensures
            a == (match selected {
                None => HeldItemAction::HideAll,
                Some(item) => if old(self).current_item == Some(item) {
                    HeldItemAction::Keep
                } else {
                    HeldItemAction::Show(item)
                },
            }),
            final(self).current_item == selected,
    {
        match selected {
            None => {
                self.current_item = None;
                HeldItemAction::HideAll
            },
            Some(item) => {
                if self.current_item == Some(item) {
                    HeldItemAction::Keep
                } else {
                    self.current_item = Some(item);
                    HeldItemAction::Show(item)
                }
            },
        }
    }
}

/// Scrolling one notch up and then one notch down (or the reverse) comes back
/// to the same slot.
pub proof fn law_scroll_up_down(selected: usize, hotbar: usize)
    requires
        hotbar >= 1,
        selected < hotbar,
    ensures
        spec_scroll(spec_scroll(selected, 1i8, hotbar), -1i8, hotbar) == selected,
        spec_scroll(spec_scroll(selected, -1i8, hotbar), 1i8, hotbar) == selected,
        spec_scroll(selected, 1i8, hotbar) < hotbar,
        spec_scroll(selected, -1i8, hotbar) < hotbar,
{
}

} // verus!
