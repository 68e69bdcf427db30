//! The inventory screen: which panels show, what happens to the held stack
//! when it closes, and what the held stack shows beside the cursor.

use vstd::prelude::*;
use crate::inventory::{amount, return_held_item, spec_store, total, PlayerInventory, Slot};
use crate::items::BlockType;
use crate::text::{dec_digits, decimal_string, push_str_chars, string_of};

verus! {

/// Which parts of the inventory screen are visible.
#[derive(Clone, Copy, Debug, PartialEq, Eq, Structural)]
pub struct InventoryPanels {
    /// The slot grid and the dimmed background.
    pub main: bool,
    /// The storage panel and its category tabs (creative mode or a platform).
    pub upper: bool,
    /// The old creative panel, always hidden now.
    pub creative_panel: bool,
}

pub fn inventory_panels(open: bool, creative: bool, has_platform: bool) -> (p: InventoryPanels)
    ensures
        p.main == open,
        p.upper == (open && (creative || has_platform)),
        !p.creative_panel,
{
    InventoryPanels { main: open, upper: open && (creative || has_platform), creative_panel: false }
}

/// When the screen closes, the held stack goes back into the inventory (what
/// does not fit stays in hand); opening changes nothing.
pub fn on_inventory_closed(open: bool, inv: &mut PlayerInventory, held: &mut Slot)
    ensures
        open ==> final(inv).slots@ == old(inv).slots@ && *final(held) == *old(held),
        !open ==> match *old(held) {
            None => final(inv).slots@ == old(inv).slots@ && *final(held) is None,
            Some((t, c)) => {
                let r = spec_store(old(inv).slots@, t, c as nat, 0, old(inv).slots@.len() as int, old(inv).max_stack);
                &&& final(inv).slots@ == r.0
                &&& *final(held) == (if r.1 > 0 { Some((t, r.1 as u32)) } else { None })
            },
        },
        forall|x: BlockType| #[trigger] total(final(inv).slots@, x) + amount(*final(held), x)
            == total(old(inv).slots@, x) + amount(*old(held), x),
        final(inv).selected_slot == old(inv).selected_slot,
        final(inv).max_stack == old(inv).max_stack,
{
    if !open {
        let max_stack = inv.max_stack;
        return_held_item(&mut inv.slots, held, max_stack);
    }
}

/// What the cursor carries on screen: nothing while the screen is closed or the
/// hand is empty; otherwise the item, and its count when more than one.
pub open spec fn spec_held_display(open: bool, held: Slot) -> Option<(BlockType, Seq<char>)> {
    if !open {
        None
    } else {
        match held {
            Some((t, c)) => Some((t, if c > 1 { dec_digits(c as nat) } else { Seq::empty() })),
            None => None,
        }
    }
}

pub fn held_item_display(open: bool, held: Slot) -> (r: Option<(BlockType, String)>)
    ensures
        match (r, spec_held_display(open, held)) {
            (Some((t, s)), Some((u, w))) => t == u && s@ == w,
            (None, None) => true,
            _ => false,
        },
{
    if !open {
        return None;
    }
    match held {
        Some((t, c)) => {
            let s = if c > 1 { decimal_string(c as u64) } else { String::new() };
            Some((t, s))
        },
        None => None,
    }
}

/// The first hovered slot (in the order given) that holds a stack.
pub open spec fn first_hovered_stack(slots: Seq<Slot>, hovered: Seq<usize>, n: int) -> Option<(BlockType, u32)>
    decreases n,
{
    if n <= 0 {
        None
    } else {
        match first_hovered_stack(slots, hovered, n - 1) {
            Some(x) => Some(x),
            None => if hovered[n - 1] < slots.len() && slots[hovered[n - 1] as int] is Some {
                slots[hovered[n - 1] as int]
            } else {
                None
            },
        }
    }
}

/// What the tooltip describes: the stack under the pointer (with its count),
/// else the hovered catalogue item (without a count), else nothing.
pub fn tooltip_item(slots: &Vec<Slot>, hovered: &Vec<usize>, hovered_catalog: Option<BlockType>) -> (r: Option<(BlockType, Option<u32>)>)
    ensures
        r == (match first_hovered_stack(slots@, hovered@, hovered@.len() as int) {
            Some((t, c)) => Some((t, Some(c))),
            None => match hovered_catalog {
                Some(b) => Some((b, None::<u32>)),
                None => None,
            },
        }),
{
    let mut i: usize = 0;
    while i < hovered.len()
        invariant
            i <= hovered.len(),
            first_hovered_stack(slots@, hovered@, i as int) is None,
        decreases hovered.len() - i,
    {
        let k = hovered[i];
        if k < slots.len() {
            if let Some((t, c)) = slots[k] {
                proof {
                    lemma_first_hovered_stays(slots@, hovered@, i as int + 1, hovered@.len() as int);
                }
                return Some((t, Some(c)));
            }
        }
        i = i + 1;
    }
    match hovered_catalog {
        Some(b) => Some((b, None)),
        None => None,
    }
}

proof fn lemma_first_hovered_stays(slots: Seq<Slot>, hovered: Seq<usize>, k: int, n: int)
    requires
        0 <= k <= n,
        first_hovered_stack(slots, hovered, k) is Some,
    ensures
        first_hovered_stack(slots, hovered, n) == first_hovered_stack(slots, hovered, k),
    decreases n - k,
{
    if k < n {
        lemma_first_hovered_stays(slots, hovered, k, n - 1);
    }
}

/// The tooltip text: the item's name, followed by " (count)" for a stack.
pub open spec fn spec_tooltip_text(name: Seq<char>, count: Option<u32>) -> Seq<char> {
    match count {
        Some(c) => name + seq![' ', '('] + dec_digits(c as nat) + seq![')'],
        None => name,
    }
}

pub fn tooltip_text(name: &str, count: Option<u32>) -> (s: String)
    ensures
        s@ == spec_tooltip_text(name@, count),
{
    let mut v: Vec<char> = Vec::new();
    push_str_chars(&mut v, name);
    match count {
        Some(c) => {
            v.push(' ');
            v.push('(');
            let d = decimal_string(c as u64);
            push_str_chars(&mut v, d.as_str());
            v.push(')');
            assert(v@ =~= spec_tooltip_text(name@, count));
        },
        None => {
            assert(v@ =~= spec_tooltip_text(name@, count));
        },
    }
    string_of(&v)
}

} // verus!
