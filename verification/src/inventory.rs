//! The player's slot inventory: stacking, taking, clicking and shift-moving items.
//!
//! A slot holds nothing or a stack `(kind, count)`. The first `hotbar` slots form
//! the hotbar; the rest are the main inventory. `max_stack` is the stack limit.

use vstd::prelude::*;
use crate::items::BlockType;

verus! {

pub type Stack = (BlockType, u32);

pub type Slot = Option<Stack>;

/// How many of `item` a slot holds.
pub open spec fn amount(s: Slot, item: BlockType) -> nat {
    match s {
        Some((t, c)) => if t == item { c as nat } else { 0 },
        None => 0,
    }
}

/// How many of `item` a run of slots holds.
pub open spec fn total(slots: Seq<Slot>, item: BlockType) -> nat
    decreases slots.len(),
{
    if slots.len() == 0 {
        0
    } else {
        total(slots.drop_last(), item) + amount(slots.last(), item)
    }
}

/// Every stack in the slots is within the limit.
pub open spec fn stacks_within(slots: Seq<Slot>, max_stack: u32) -> bool {
    forall|i: int| 0 <= i < slots.len() ==> match #[trigger] slots[i] {
        Some((_, c)) => c <= max_stack,
        None => true,
    }
}

pub open spec fn held_within(held: Slot, max_stack: u32) -> bool {
    match held {
        Some((_, c)) => c <= max_stack,
        None => true,
    }
}

pub proof fn lemma_total_update(s: Seq<Slot>, i: int, v: Slot, item: BlockType)
    requires
        0 <= i < s.len(),
    ensures
        total(s.update(i, v), item) + amount(s[i], item) == total(s, item) + amount(v, item),
    decreases s.len(),
{
    let u = s.update(i, v);
    if i == s.len() - 1 {
        assert(u.drop_last() =~= s.drop_last());
    } else {
        assert(u.drop_last() =~= s.drop_last().update(i, v));
        lemma_total_update(s.drop_last(), i, v, item);
    }
}

/// The first pass of stacking: top up existing stacks of `item` in `t..hi`.
pub open spec fn stack_pass(
    slots: Seq<Slot>,
    item: BlockType,
    rem: nat,
    t: int,
    hi: int,
    max_stack: u32,
) -> (Seq<Slot>, nat)
    decreases hi - t,
{
    if t >= hi || rem == 0 || t < 0 || t >= slots.len() {
        (slots, rem)
    } else {
        match slots[t] {
            Some((bt, c)) => {
                if bt == item && c < max_stack {
                    let add = if rem < max_stack - c { rem } else { (max_stack - c) as nat };
                    stack_pass(
                        slots.update(t, Some((bt, (c + add) as u32))),
                        item,
                        (rem - add) as nat,
                        t + 1,
                        hi,
                        max_stack,
                    )
                } else {
                    stack_pass(slots, item, rem, t + 1, hi, max_stack)
                }
            },
            None => stack_pass(slots, item, rem, t + 1, hi, max_stack),
        }
    }
}

/// The second pass of stacking: start new stacks of `item` in empty slots of `t..hi`.
pub open spec fn fill_pass(
    slots: Seq<Slot>,
    item: BlockType,
    rem: nat,
    t: int,
    hi: int,
    max_stack: u32,
) -> (Seq<Slot>, nat)
    decreases hi - t,
{
    if t >= hi || rem == 0 || t < 0 || t >= slots.len() {
        (slots, rem)
    } else {
        match slots[t] {
            None => {
                let add = if rem < max_stack { rem } else { max_stack as nat };
                fill_pass(
                    slots.update(t, Some((item, add as u32))),
                    item,
                    (rem - add) as nat,
                    t + 1,
                    hi,
                    max_stack,
                )
            },
            Some(_) => fill_pass(slots, item, rem, t + 1, hi, max_stack),
        }
    }
}

/// Both passes over `lo..hi`: what the slots become and how many are left over.
pub open spec fn spec_store(
    slots: Seq<Slot>,
    item: BlockType,
    amount: nat,
    lo: int,
    hi: int,
    max_stack: u32,
) -> (Seq<Slot>, nat) {
    let first = stack_pass(slots, item, amount, lo, hi, max_stack);
    fill_pass(first.0, item, first.1, lo, hi, max_stack)
}

pub proof fn lemma_stack_pass(
    slots: Seq<Slot>,
    item: BlockType,
    rem: nat,
    t: int,
    hi: int,
    max_stack: u32,
    x: BlockType,
)
    ensures
        ({
            let r = stack_pass(slots, item, rem, t, hi, max_stack);
            &&& r.0.len() == slots.len()
            &&& r.1 <= rem
            &&& total(r.0, x) + (if x == item { r.1 } else { 0 }) == total(slots, x) + (if x
                == item {
                rem
            } else {
                0
            })
            &&& (stacks_within(slots, max_stack) ==> stacks_within(r.0, max_stack))
            &&& forall|j: int| 0 <= j < slots.len() && (j < t || j >= hi) ==> r.0[j] == slots[j]
            &&& forall|j: int| 0 <= j < slots.len() && slots[j] is None ==> r.0[j] is None
        }),
    decreases hi - t,
{
    if t >= hi || rem == 0 || t < 0 || t >= slots.len() {
    } else {
        match slots[t] {
            Some((bt, c)) => {
                if bt == item && c < max_stack {
                    let add = if rem < max_stack - c { rem } else { (max_stack - c) as nat };
                    let s2 = slots.update(t, Some((bt, (c + add) as u32)));
                    lemma_total_update(slots, t, Some((bt, (c + add) as u32)), x);
                    lemma_stack_pass(s2, item, (rem - add) as nat, t + 1, hi, max_stack, x);
                    let r = stack_pass(s2, item, (rem - add) as nat, t + 1, hi, max_stack);
                    assert forall|j: int|
                        0 <= j < slots.len() && (j < t || j >= hi) implies r.0[j] == slots[j] by {
                        assert(s2[j] == slots[j]);
                    }
                    assert forall|j: int|
                        0 <= j < slots.len() && slots[j] is None implies r.0[j] is None by {
                        assert(s2[j] == slots[j]);
                    }
                } else {
                    lemma_stack_pass(slots, item, rem, t + 1, hi, max_stack, x);
                }
            },
            None => {
                lemma_stack_pass(slots, item, rem, t + 1, hi, max_stack, x);
            },
        }
    }
}

pub proof fn lemma_fill_pass(
    slots: Seq<Slot>,
    item: BlockType,
    rem: nat,
    t: int,
    hi: int,
    max_stack: u32,
    x: BlockType,
)
    ensures
        ({
            let r = fill_pass(slots, item, rem, t, hi, max_stack);
            &&& r.0.len() == slots.len()
            &&& r.1 <= rem
            &&& total(r.0, x) + (if x == item { r.1 } else { 0 }) == total(slots, x) + (if x
                == item {
                rem
            } else {
                0
            })
            &&& (stacks_within(slots, max_stack) ==> stacks_within(r.0, max_stack))
            &&& forall|j: int| 0 <= j < slots.len() && (j < t || j >= hi) ==> r.0[j] == slots[j]
        }),
    decreases hi - t,
{
    if t >= hi || rem == 0 || t < 0 || t >= slots.len() {
    } else {
        match slots[t] {
            None => {
                let add = if rem < max_stack { rem } else { max_stack as nat };
                let s2 = slots.update(t, Some((item, add as u32)));
                lemma_total_update(slots, t, Some((item, add as u32)), x);
                lemma_fill_pass(s2, item, (rem - add) as nat, t + 1, hi, max_stack, x);
                let r = fill_pass(s2, item, (rem - add) as nat, t + 1, hi, max_stack);
                assert forall|j: int|
                    0 <= j < slots.len() && (j < t || j >= hi) implies r.0[j] == slots[j] by {
                    assert(s2[j] == slots[j]);
                }
            },
            Some(_) => {
                lemma_fill_pass(slots, item, rem, t + 1, hi, max_stack, x);
            },
        }
    }
}

/// Storing items neither creates nor destroys any: what is stored plus what is
/// left over equals what was there plus what was offered, for every kind.
pub proof fn law_store_conserves(
    slots: Seq<Slot>,
    item: BlockType,
    amount: nat,
    lo: int,
    hi: int,
    max_stack: u32,
    x: BlockType,
)
    ensures
        ({
            let r = spec_store(slots, item, amount, lo, hi, max_stack);
            &&& r.0.len() == slots.len()
            &&& r.1 <= amount
            &&& total(r.0, x) + (if x == item { r.1 } else { 0 }) == total(slots, x) + (if x
                == item {
                amount
            } else {
                0
            })
            &&& (stacks_within(slots, max_stack) ==> stacks_within(r.0, max_stack))
            &&& forall|j: int| 0 <= j < slots.len() && (j < lo || j >= hi) ==> r.0[j] == slots[j]
        }),
{
    lemma_stack_pass(slots, item, amount, lo, lo, max_stack, x);
    lemma_stack_pass(slots, item, amount, lo, hi, max_stack, x);
    let first = stack_pass(slots, item, amount, lo, hi, max_stack);
    lemma_fill_pass(first.0, item, first.1, lo, hi, max_stack, x);
}

/// Run the stacking passes in place over `lo..hi`; returns what did not fit.
fn store_in_range(
    slots: &mut Vec<Slot>,
    item: BlockType,
    amount: u32,
    lo: usize,
    hi: usize,
    max_stack: u32,
) -> (rem: u32)
    requires
        lo <= hi <= old(slots).len(),
    ensures
        (final(slots)@, rem as nat) == spec_store(
            old(slots)@,
            item,
            amount as nat,
            lo as int,
            hi as int,
            max_stack,
        ),
{
    let ghost orig = slots@;
    let ghost first = stack_pass(orig, item, amount as nat, lo as int, hi as int, max_stack);
    let mut remaining = amount;
    let mut t = lo;
    while t < hi
        invariant
            lo <= t <= hi,
            hi <= slots.len(),
            slots.len() == orig.len(),
            stack_pass(slots@, item, remaining as nat, t as int, hi as int, max_stack) == first,
        ensures
            stack_pass(slots@, item, remaining as nat, t as int, hi as int, max_stack) == first,
            t >= hi || remaining == 0,
        decreases hi - t,
    {
        if remaining == 0 {
            break;
        }
        match slots[t] {
            Some((bt, c)) => {
                if bt == item && c < max_stack {
                    let space = max_stack - c;
                    let add = if remaining < space { remaining } else { space };
                    slots.set(t, Some((bt, c + add)));
                    remaining = remaining - add;
                }
            },
            None => {},
        }
        t = t + 1;
    }
    assert(stack_pass(slots@, item, remaining as nat, t as int, hi as int, max_stack) == (
    slots@, remaining as nat));
    let ghost target = fill_pass(first.0, item, first.1, lo as int, hi as int, max_stack);
    let mut t = lo;
    while t < hi
        invariant
            lo <= t <= hi,
            hi <= slots.len(),
            slots.len() == orig.len(),
            fill_pass(slots@, item, remaining as nat, t as int, hi as int, max_stack) == target,
        ensures
            fill_pass(slots@, item, remaining as nat, t as int, hi as int, max_stack) == target,
            t >= hi || remaining == 0,
        decreases hi - t,
    {
        if remaining == 0 {
            break;
        }
        if slots[t].is_none() {
            let add = if remaining < max_stack { remaining } else { max_stack };
            slots.set(t, Some((item, add)));
            remaining = remaining - add;
        }
        t = t + 1;
    }
    remaining
}

/// Add `amount` of `item` to the slots: first onto existing stacks of that kind,
/// then into empty slots, in slot order. Returns how many did not fit.
pub fn add_item(slots: &mut Vec<Slot>, item: BlockType, amount: u32, max_stack: u32) -> (rem: u32)
    ensures
        (final(slots)@, rem as nat) == spec_store(
            old(slots)@,
            item,
            amount as nat,
            0,
            old(slots)@.len() as int,
            max_stack,
        ),
        rem <= amount,
        final(slots)@.len() == old(slots)@.len(),
        total(final(slots)@, item) == total(old(slots)@, item) + (amount - rem),
        forall|x: BlockType| x != item ==> total(final(slots)@, x) == total(old(slots)@, x),
{
    let n = slots.len();
    let r = store_in_range(slots, item, amount, 0, n, max_stack);
    proof {
        law_store_conserves(old(slots)@, item, amount as nat, 0, n as int, max_stack, item);
        assert forall|x: BlockType| x != item implies total(slots@, x) == total(old(slots)@, x) by {
            law_store_conserves(old(slots)@, item, amount as nat, 0, n as int, max_stack, x);
        }
    }
    r
}

/// How many of `item` the slots hold, in total.
pub fn total_count(slots: &Vec<Slot>, item: BlockType) -> (n: u128)
    ensures
        n == total(slots@, item),
{
    let mut sum: u128 = 0;
    let mut i: usize = 0;
    while i < slots.len()
        invariant
            i <= slots.len(),
            sum == total(slots@.take(i as int), item),
            sum <= i * 4294967295,
        decreases slots.len() - i,
    {
        proof {
            assert(slots@.take(i as int + 1).drop_last() =~= slots@.take(i as int));
        }
        match slots[i] {
            Some((t, c)) => {
                if t == item {
                    sum = sum + c as u128;
                }
            },
            None => {},
        }
        i = i + 1;
    }
    assert(slots@.take(i as int) =~= slots@);
    sum
}

/// Removal order: `rem` more of `item` are taken from the slots from index `t` on,
/// emptying slots whose stack runs out.
pub open spec fn take_pass(slots: Seq<Slot>, item: BlockType, rem: nat, t: int) -> Seq<Slot>
    decreases slots.len() - t,
{
    if rem == 0 || t < 0 || t >= slots.len() {
        slots
    } else {
        match slots[t] {
            Some((bt, c)) => {
                if bt == item {
                    if c as nat > rem {
                        slots.update(t, Some((bt, (c - rem) as u32)))
                    } else {
                        take_pass(slots.update(t, None), item, (rem - c) as nat, t + 1)
                    }
                } else {
                    take_pass(slots, item, rem, t + 1)
                }
            },
            None => take_pass(slots, item, rem, t + 1),
        }
    }
}

pub proof fn lemma_take_pass(slots: Seq<Slot>, item: BlockType, rem: nat, t: int, x: BlockType)
    requires
        0 <= t <= slots.len(),
        rem <= total(slots.subrange(t, slots.len() as int), item),
    ensures
        take_pass(slots, item, rem, t).len() == slots.len(),
        total(take_pass(slots, item, rem, t), x) + (if x == item { rem } else { 0 }) == total(
            slots,
            x,
        ),
    decreases slots.len() - t,
{
    lemma_total_front(slots.subrange(t, slots.len() as int), item);
    if rem == 0 || t >= slots.len() {
        if t >= slots.len() {
            assert(slots.subrange(t, slots.len() as int).len() == 0);
        }
    } else {
        let rest = slots.subrange(t + 1, slots.len() as int);
        assert(slots.subrange(t, slots.len() as int).drop_first() =~= rest);
        match slots[t] {
            Some((bt, c)) => {
                if bt == item {
                    if c as nat > rem {
                        lemma_total_update(slots, t, Some((bt, (c - rem) as u32)), x);
                    } else {
                        let s2 = slots.update(t, None);
                        lemma_total_update(slots, t, None, x);
                        assert(s2.subrange(t + 1, s2.len() as int) =~= rest);
                        lemma_take_pass(s2, item, (rem - c) as nat, t + 1, x);
                    }
                } else {
                    lemma_take_pass(slots, item, rem, t + 1, x);
                }
            },
            None => {
                lemma_take_pass(slots, item, rem, t + 1, x);
            },
        }
    }
}

/// The total of a run is its first slot's amount plus the total of the rest.
pub proof fn lemma_total_front(s: Seq<Slot>, item: BlockType)
    ensures
        s.len() > 0 ==> total(s, item) == amount(s[0], item) + total(s.drop_first(), item),
    decreases s.len(),
{
    reveal_with_fuel(total, 2);
    if s.len() > 1 {
        lemma_total_front(s.drop_last(), item);
        assert(s.drop_last().drop_first() =~= s.drop_first().drop_last());
    } else if s.len() == 1 {
        assert(s.drop_last().len() == 0);
        assert(s.drop_first().len() == 0);
    }
}

/// Take `amount` of `item` from the slots if there are that many; otherwise leave
/// the slots as they are and report failure.
pub fn consume_item(slots: &mut Vec<Slot>, item: BlockType, amount: u32) -> (ok: bool)
    ensures
        ok == (total(old(slots)@, item) >= amount),
        ok ==> final(slots)@ == take_pass(old(slots)@, item, amount as nat, 0),
        !ok ==> final(slots)@ == old(slots)@,
        final(slots)@.len() == old(slots)@.len(),
        ok ==> total(final(slots)@, item) + amount == total(old(slots)@, item),
        forall|x: BlockType| x != item ==> total(final(slots)@, x) == total(old(slots)@, x),
{
    let have = total_count(slots, item);
    if have < amount as u128 {
        return false;
    }
    proof {
        assert(old(slots)@.subrange(0, old(slots)@.len() as int) =~= old(slots)@);
        lemma_take_pass(old(slots)@, item, amount as nat, 0, item);
        assert forall|x: BlockType| x != item implies total(
            take_pass(old(slots)@, item, amount as nat, 0),
            x,
        ) == total(old(slots)@, x) by {
            lemma_take_pass(old(slots)@, item, amount as nat, 0, x);
        }
    }
    let ghost orig = slots@;
    let ghost target = take_pass(orig, item, amount as nat, 0);
    let mut rem = amount;
    let mut t: usize = 0;
    while t < slots.len()
        invariant
            t <= slots.len(),
            slots.len() == orig.len(),
            take_pass(slots@, item, rem as nat, t as int) == target,
        ensures
            take_pass(slots@, item, rem as nat, t as int) == target,
            t >= slots.len() || rem == 0,
        decreases slots.len() - t,
    {
        if rem == 0 {
            break;
        }
        match slots[t] {
            Some((bt, c)) => {
                if bt == item {
                    if c > rem {
                        slots.set(t, Some((bt, c - rem)));
                        rem = 0;
                    } else {
                        slots.set(t, None);
                        rem = rem - c;
                    }
                }
            },
            None => {},
        }
        t = t + 1;
    }
    true
}


/// What a plain click on a slot does to the slot and to the held stack.
///
/// Empty hand and empty slot: nothing. Empty hand: pick the stack up. Empty slot:
/// put the held stack down. Same kind: merge up to the stack limit and keep the
/// overflow in hand. Different kinds: swap.
pub open spec fn spec_click(slot: Slot, held: Slot, max_stack: u32) -> (Slot, Slot) {
    match (slot, held) {
        (None, None) => (None, None),
        (Some(item), None) => (None, Some(item)),
        (None, Some(item)) => (Some(item), None),
        (Some((st, sc)), Some((ht, hc))) => {
            if st == ht {
                let sum = sc + hc;
                if sum <= max_stack {
                    (Some((st, sum as u32)), None)
                } else {
                    (Some((st, max_stack)), Some((ht, (sum - max_stack) as u32)))
                }
            } else {
                (Some((ht, hc)), Some((st, sc)))
            }
        },
    }
}

/// Merging a held stack into a slot of the same kind would not overflow a `u32`.
pub open spec fn click_fits(slot: Slot, held: Slot) -> bool {
    match (slot, held) {
        (Some((st, sc)), Some((ht, hc))) => st == ht ==> sc + hc <= u32::MAX,
        _ => true,
    }
}

/// Plain (unshifted) click on slot `idx` with the held stack `held`.
pub fn click_slot(slots: &mut Vec<Slot>, held: &mut Slot, idx: usize, max_stack: u32)
    requires
        idx < old(slots).len(),
        click_fits(old(slots)@[idx as int], *old(held)),
    ensures
        final(slots)@ == old(slots)@.update(
            idx as int,
            spec_click(old(slots)@[idx as int], *old(held), max_stack).0,
        ),
        *final(held) == spec_click(old(slots)@[idx as int], *old(held), max_stack).1,
{
    let slot_item = slots[idx];
    let held_item = *held;
    let (new_slot, new_held) = match (slot_item, held_item) {
        (None, None) => (None, None),
        (Some(item), None) => (None, Some(item)),
        (None, Some(item)) => (Some(item), None),
        (Some((st, sc)), Some((ht, hc))) => {
            if st == ht {
                let sum = sc + hc;
                if sum <= max_stack {
                    (Some((st, sum)), None)
                } else {
                    (Some((st, max_stack)), Some((ht, sum - max_stack)))
                }
            } else {
                (Some((ht, hc)), Some((st, sc)))
            }
        },
    };
    slots.set(idx, new_slot);
    *held = new_held;
}

/// A click moves items between the slot and the hand but never creates or destroys
/// any, and keeps every stack within the limit when it started that way.
pub proof fn law_click_conserves(slots: Seq<Slot>, held: Slot, idx: int, max_stack: u32, x: BlockType)
    requires
        0 <= idx < slots.len(),
        click_fits(slots[idx], held),
    ensures
        ({
            let r = spec_click(slots[idx], held, max_stack);
            &&& total(slots.update(idx, r.0), x) + amount(r.1, x) == total(slots, x) + amount(held, x)
            &&& (stacks_within(slots, max_stack) && held_within(held, max_stack)) ==> (
            stacks_within(slots.update(idx, r.0), max_stack) && held_within(r.1, max_stack))
        }),
{
    let r = spec_click(slots[idx], held, max_stack);
    lemma_total_update(slots, idx, r.0, x);
    if stacks_within(slots, max_stack) && held_within(held, max_stack) {
        let u = slots.update(idx, r.0);
        assert forall|i: int| 0 <= i < u.len() implies match #[trigger] u[i] {
            Some((_, c)) => c <= max_stack,
            None => true,
        } by {
            if i != idx {
                assert(u[i] == slots[i]);
            }
        }
    }
}

/// On an inventory whose stacks (and the held stack) keep within a limit of at
/// most half the counter range, every click fits, and it neither creates nor
/// destroys items and keeps every stack within the limit.
pub proof fn law_click_within_limit(slots: Seq<Slot>, held: Slot, idx: int, max_stack: u32, x: BlockType)
    requires
        0 <= idx < slots.len(),
        stacks_within(slots, max_stack),
        held_within(held, max_stack),
        2 * max_stack <= u32::MAX,
    ensures
        click_fits(slots[idx], held),
        ({
            let r = spec_click(slots[idx], held, max_stack);
            &&& total(slots.update(idx, r.0), x) + amount(r.1, x) == total(slots, x) + amount(held, x)
            &&& stacks_within(slots.update(idx, r.0), max_stack)
            &&& held_within(r.1, max_stack)
        }),
{
    assert(match slots[idx] {
        Some((_, c)) => c <= max_stack,
        None => true,
    });
    law_click_conserves(slots, held, idx, max_stack, x);
}

/// The slot range a shift-click moves into: hotbar slots go to the main inventory
/// and main-inventory slots go to the hotbar.
pub open spec fn shift_target(idx: int, hotbar: int, len: int) -> (int, int) {
    if idx < hotbar {
        (hotbar, len)
    } else {
        (0, hotbar)
    }
}

/// What a shift-click on slot `idx` does: the stack is lifted out, stored into the
/// other area (topping up stacks first, then empty slots), and whatever does not fit
/// goes back. The flag tells whether anything moved.
pub open spec fn spec_shift_move(slots: Seq<Slot>, idx: int, hotbar: int, max_stack: u32) -> (
    Seq<Slot>,
    bool,
) {
    match slots[idx] {
        None => (slots, false),
        Some((t, c)) => {
            let range = shift_target(idx, hotbar, slots.len() as int);
            let r = spec_store(slots.update(idx, None), t, c as nat, range.0, range.1, max_stack);
            let back = if r.1 > 0 {
                r.0.update(idx, Some((t, r.1 as u32)))
            } else {
                r.0
            };
            (back, r.1 < c)
        },
    }
}

/// Shift-click on slot `idx`; returns whether anything moved.
pub fn shift_click_move(slots: &mut Vec<Slot>, idx: usize, hotbar: usize, max_stack: u32) -> (moved:
    bool)
    requires
        idx < old(slots).len(),
        hotbar <= old(slots).len(),
    ensures
        (final(slots)@, moved) == spec_shift_move(old(slots)@, idx as int, hotbar as int, max_stack),
{
    match slots[idx] {
        None => false,
        Some((t, c)) => {
            slots.set(idx, None);
            let n = slots.len();
            let (lo, hi) = if idx < hotbar {
                (hotbar, n)
            } else {
                (0, hotbar)
            };
            let rem = store_in_range(slots, t, c, lo, hi, max_stack);
            proof {
                law_store_conserves(old(slots)@.update(idx as int, None), t, c as nat, lo as int, hi as int, max_stack, t);
            }
            if rem > 0 {
                slots.set(idx, Some((t, rem)));
            }
            rem < c
        },
    }
}

/// A shift-click never creates or destroys items, and keeps every stack within the
/// limit when it started that way.
pub proof fn law_shift_move_conserves(
    slots: Seq<Slot>,
    idx: int,
    hotbar: int,
    max_stack: u32,
    x: BlockType,
)
    requires
        0 <= idx < slots.len(),
        0 <= hotbar <= slots.len(),
    ensures
        total(spec_shift_move(slots, idx, hotbar, max_stack).0, x) == total(slots, x),
        spec_shift_move(slots, idx, hotbar, max_stack).0.len() == slots.len(),
        stacks_within(slots, max_stack) ==> stacks_within(
            spec_shift_move(slots, idx, hotbar, max_stack).0,
            max_stack,
        ),
{
    match slots[idx] {
        None => {},
        Some((t, c)) => {
            let range = shift_target(idx, hotbar, slots.len() as int);
            let s0 = slots.update(idx, None);
            lemma_total_update(slots, idx, None, x);
            law_store_conserves(s0, t, c as nat, range.0, range.1, max_stack, x);
            let r = spec_store(s0, t, c as nat, range.0, range.1, max_stack);
            assert(r.0[idx] == s0[idx]);
            if r.1 > 0 {
                lemma_total_update(r.0, idx, Some((t, r.1 as u32)), x);
            }
            if stacks_within(slots, max_stack) {
                assert forall|i: int| 0 <= i < s0.len() implies match #[trigger] s0[i] {
                    Some((_, c)) => c <= max_stack,
                    None => true,
                } by {
                    if i != idx {
                        assert(s0[i] == slots[i]);
                    }
                }
                if r.1 > 0 {
                    let u = r.0.update(idx, Some((t, r.1 as u32)));
                    assert forall|i: int| 0 <= i < u.len() implies match #[trigger] u[i] {
                        Some((_, c)) => c <= max_stack,
                        None => true,
                    } by {
                        if i != idx {
                            assert(u[i] == r.0[i]);
                        }
                    }
                }
            }
        },
    }
}

/// Put the held stack back into the slots (as `add_item` would); what does not fit
/// stays in hand.
pub fn return_held_item(slots: &mut Vec<Slot>, held: &mut Slot, max_stack: u32)
    ensures
        match *old(held) {
            None => final(slots)@ == old(slots)@ && *final(held) == None::<Stack>,
            Some((t, c)) => {
                let r = spec_store(old(slots)@, t, c as nat, 0, old(slots)@.len() as int, max_stack);
                &&& final(slots)@ == r.0
                &&& *final(held) == (if r.1 > 0 { Some((t, r.1 as u32)) } else { None })
            },
        },
        forall|x: BlockType| #[trigger] total(final(slots)@, x) + amount(*final(held), x) == total(old(slots)@, x) + amount(*old(held), x),
{
    match *held {
        None => {},
        Some((t, c)) => {
            *held = None;
            let rem = add_item(slots, t, c, max_stack);
            if rem > 0 {
                *held = Some((t, rem));
            }
        },
    }
}

/// An inventory change reported to the rest of the game.
#[derive(Clone, Copy, Debug, PartialEq, Eq, Structural)]
pub struct InventoryChanged {
    pub entity: u64,
    pub item_id: BlockType,
    pub delta: i32,
}

/// A player's slot inventory with its selected hotbar slot.
pub struct PlayerInventory {
    pub slots: Vec<Slot>,
    pub selected_slot: usize,
    pub max_stack: u32,
}

impl PlayerInventory {
    /// An empty inventory of `num_slots` slots with the first slot selected.
    pub fn new(num_slots: usize, max_stack: u32) -> (inv: PlayerInventory)
        ensures
            inv.slots@.len() == num_slots,
            forall|i: int| 0 <= i < num_slots ==> inv.slots@[i] is None,
            inv.selected_slot == 0,
            inv.max_stack == max_stack,
    {
        let mut slots: Vec<Slot> = Vec::new();
        let mut i: usize = 0;
        while i < num_slots
            invariant
                i <= num_slots,
                slots@.len() == i,
                forall|j: int| 0 <= j < i ==> slots@[j] is None,
            decreases num_slots - i,
        {
            slots.push(None);
            i = i + 1;
        }
        PlayerInventory { slots, selected_slot: 0, max_stack }
    }

    /// Add items; returns how many did not fit (see [`add_item`]).
    pub fn add_item_by_id(&mut self, item: BlockType, amount: u32) -> (rem: u32)
        ensures
            (final(self).slots@, rem as nat) == spec_store(
                old(self).slots@,
                item,
                amount as nat,
                0,
                old(self).slots@.len() as int,
                old(self).max_stack,
            ),
            rem <= amount,
            total(final(self).slots@, item) == total(old(self).slots@, item) + (amount - rem),
            forall|x: BlockType| x != item ==> total(final(self).slots@, x) == total(old(self).slots@, x),
            final(self).selected_slot == old(self).selected_slot,
            final(self).max_stack == old(self).max_stack,
    {
        add_item(&mut self.slots, item, amount, self.max_stack)
    }

    /// Take items if there are enough (see [`consume_item`]).
    pub fn consume_item_by_id(&mut self, item: BlockType, amount: u32) -> (ok: bool)
        ensures
            ok == (total(old(self).slots@, item) >= amount),
            ok ==> final(self).slots@ == take_pass(old(self).slots@, item, amount as nat, 0),
            !ok ==> final(self).slots@ == old(self).slots@,
            ok ==> total(final(self).slots@, item) + amount == total(old(self).slots@, item),
            forall|x: BlockType| x != item ==> total(final(self).slots@, x) == total(old(self).slots@, x),
            final(self).selected_slot == old(self).selected_slot,
            final(self).max_stack == old(self).max_stack,
    {
        consume_item(&mut self.slots, item, amount)
    }

    pub fn get_total_count_by_id(&self, item: BlockType) -> (n: u128)
        ensures
            n == total(self.slots@, item),
    {
        total_count(&self.slots, item)
    }

    /// The kind in slot `idx`, if the slot exists and holds something.
    pub fn get_slot_item_id(&self, idx: usize) -> (r: Option<BlockType>)
        ensures
            r == (if idx < self.slots@.len() {
                match self.slots@[idx as int] {
                    Some((t, _)) => Some(t),
                    None => None,
                }
            } else {
                None
            }),
    {
        if idx < self.slots.len() {
            match self.slots[idx] {
                Some((t, _)) => Some(t),
                None => None,
            }
        } else {
            None
        }
    }

    /// The count in slot `idx` (0 when empty or missing).
    pub fn get_slot_count(&self, idx: usize) -> (r: u32)
        ensures
            r == (if idx < self.slots@.len() {
                match self.slots@[idx as int] {
                    Some((_, c)) => c,
                    None => 0,
                }
            } else {
                0
            }),
    {
        if idx < self.slots.len() {
            match self.slots[idx] {
                Some((_, c)) => c,
                None => 0,
            }
        } else {
            0
        }
    }

    /// The kind in the selected slot.
    pub fn selected_item_id(&self) -> (r: Option<BlockType>)
        ensures
            r == (if self.selected_slot < self.slots@.len() {
                match self.slots@[self.selected_slot as int] {
                    Some((t, _)) => Some(t),
                    None => None,
                }
            } else {
                None
            }),
    {
        self.get_slot_item_id(self.selected_slot)
    }
}

/// The local player's inventory as the block and command systems see it: the
/// player (if any), the player's inventory (if the player has one) and the
/// inventory-change reports sent so far.
pub struct LocalPlayerInventory {
    pub local_player: Option<u64>,
    pub inventory: Option<PlayerInventory>,
    pub events: Vec<InventoryChanged>,
}

impl LocalPlayerInventory {
    /// The local player's entity.
    pub fn entity(&self) -> (e: Option<u64>)
        ensures
            e == self.local_player,
    {
        self.local_player
    }

    /// Read access to the local player's inventory.
    pub fn get(&self) -> (r: Option<&PlayerInventory>)
        ensures
            r is Some <==> (self.local_player is Some && self.inventory is Some),
            r matches Some(i) ==> self.inventory == Some(*i),
    {
        match self.local_player {
            Some(_) => match &self.inventory {
                Some(inv) => Some(inv),
                None => None,
            },
            None => None,
        }
    }

    /// Add items to the local player's inventory and report the change.
    ///
    /// Returns the amount that could not be added: all of it when there is no
    /// local player or it has no inventory. A report with the amount actually
    /// added is sent when that amount is positive.
    pub fn add_item(&mut self, item_id: BlockType, amount: u32) -> (rem: u32)
        ensures
            final(self).local_player == old(self).local_player,
            match (old(self).local_player, old(self).inventory) {
                (Some(e), Some(inv)) => {
                    let r = spec_store(inv.slots@, item_id, amount as nat, 0, inv.slots@.len() as int, inv.max_stack);
                    &&& rem as nat == r.1
                    &&& final(self).inventory matches Some(ni) && ni.slots@ == r.0
                        && ni.selected_slot == inv.selected_slot && ni.max_stack == inv.max_stack
                    &&& final(self).events@ == (if amount - rem > 0 {
                        old(self).events@.push(InventoryChanged { entity: e, item_id, delta: (amount - rem) as i32 })
                    } else {
                        old(self).events@
                    })
                },
                _ => rem == amount && final(self).inventory == old(self).inventory
                    && final(self).events@ == old(self).events@,
            },
    {
        let entity = match self.local_player {
            Some(e) => e,
            None => return amount,
        };
        let remaining = match &mut self.inventory {
            Some(inv) => inv.add_item_by_id(item_id, amount),
            None => return amount,
        };
        let added = amount - remaining;
        if added > 0 {
            self.events.push(InventoryChanged { entity, item_id, delta: added as i32 });
        }
        remaining
    }

    /// Take items from the local player's inventory and report the change.
    ///
    /// Returns false when there is no local player, it has no inventory, or it
    /// holds fewer than `amount`; then nothing changes. On success a report with
    /// the negated amount is sent.
    /// The reported delta is the amount turned into an `i32` (wrapping) and negated.
    pub fn consume_item(&mut self, item_id: BlockType, amount: u32) -> (ok: bool)
        requires
            amount != 0x8000_0000u32,
        ensures
            final(self).local_player == old(self).local_player,
            match (old(self).local_player, old(self).inventory) {
                (Some(e), Some(inv)) => {
                    &&& ok == (total(inv.slots@, item_id) >= amount)
                    &&& final(self).inventory matches Some(ni)
                        && ni.selected_slot == inv.selected_slot && ni.max_stack == inv.max_stack
                        && (ok ==> ni.slots@ == take_pass(inv.slots@, item_id, amount as nat, 0))
                        && (!ok ==> ni.slots@ == inv.slots@)
                    &&& final(self).events@ == (if ok {
                        old(self).events@.push(InventoryChanged { entity: e, item_id, delta: (-((amount as i32) as int)) as i32 })
                    } else {
                        old(self).events@
                    })
                },
                _ => !ok && final(self).inventory == old(self).inventory
                    && final(self).events@ == old(self).events@,
            },
    {
        let entity = match self.local_player {
            Some(e) => e,
            None => return false,
        };
        let success = match &mut self.inventory {
            Some(inv) => inv.consume_item_by_id(item_id, amount),
            None => return false,
        };
        if success {
            let d: i32 = amount as i32;
            assert(d != i32::MIN) by (bit_vector)
                requires
                    d == amount as i32,
                    amount != 0x8000_0000u32,
            ;
            self.events.push(InventoryChanged { entity, item_id, delta: -d });
        }
        success
    }
}

/// A held stack clicked onto a slot of the same kind merges into it: when the
/// two counts fit the stack limit the slot holds their sum and the hand is
/// empty; otherwise the slot is filled to the limit and the rest stays in hand.
/// Stacks of different kinds are exchanged, and an empty side takes the other.
pub proof fn law_click_merges(st: BlockType, sc: u32, ht: BlockType, hc: u32, max_stack: u32)
    ensures
        st == ht && sc + hc <= max_stack ==> spec_click(Some((st, sc)), Some((ht, hc)), max_stack)
            == (Some((st, (sc + hc) as u32)), None::<(BlockType, u32)>),
        st == ht && sc + hc > max_stack ==> spec_click(Some((st, sc)), Some((ht, hc)), max_stack)
            == (Some((st, max_stack)), Some((st, (sc + hc - max_stack) as u32))),
        st != ht ==> spec_click(Some((st, sc)), Some((ht, hc)), max_stack) == (Some((ht, hc)), Some((st, sc))),
        spec_click(None, Some((ht, hc)), max_stack) == (Some((ht, hc)), None::<(BlockType, u32)>),
        spec_click(Some((st, sc)), None, max_stack) == (None::<(BlockType, u32)>, Some((st, sc))),
{
}

} // verus!
