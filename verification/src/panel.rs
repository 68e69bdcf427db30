//! The storage panel above the inventory: pages of items, the page label,
//! taking a stack out, paging and category tabs.

use vstd::prelude::*;
use crate::inventory::Slot;
use crate::items::BlockType;
use crate::store::ItemStore;
use crate::text::{dec_digits, decimal_string, string_of};

verus! {

/// Pages needed for `n` items, `per` to a page (rounded up).
pub open spec fn spec_total_pages(n: nat, per: nat) -> nat {
    ((n + per - 1) / (per as int)) as nat
}

/// The page shown: the requested one, but never past the last page (page 0 when
/// there are no pages).
pub open spec fn spec_current_page(page: nat, total: nat) -> nat {
    let last: nat = if total >= 1 { (total - 1) as nat } else { 0 };
    if page <= last { page } else { last }
}

/// Total pages, shown page and the index of its first item.
pub fn page_layout(n_items: usize, per_page: usize, page: usize) -> (r: (usize, usize, usize))
    requires
        per_page > 0,
    ensures
        r.0 == spec_total_pages(n_items as nat, per_page as nat),
        r.1 == spec_current_page(page as nat, r.0 as nat),
        r.2 == r.1 * per_page,
        r.2 <= n_items,
{
    let q = n_items / per_page;
    let rem = n_items % per_page;
    assert(rem != 0 ==> q < usize::MAX) by (nonlinear_arith)
        requires
            per_page > 0,
            q == n_items / per_page,
            rem == n_items % per_page,
            n_items <= usize::MAX,
    ;
    let total = q + if rem == 0 { 0 } else { 1 };
    assert(total as int == (n_items + per_page - 1) / (per_page as int)) by (nonlinear_arith)
        requires
            per_page > 0,
            total == n_items / per_page + if n_items % per_page == 0 { 0int } else { 1int };
    let last = if total >= 1 { total - 1 } else { 0 };
    let current = if page <= last { page } else { last };
    assert(current * per_page <= n_items) by (nonlinear_arith)
        requires
            per_page > 0,
            current <= last,
            last == if total >= 1 { total - 1 } else { 0 },
            total == n_items / per_page + if n_items % per_page == 0 { 0int } else { 1int };
    (total, current, current * per_page)
}

/// "current/total", counting pages from one, with at least one page.
pub open spec fn spec_page_label(current: nat, total: nat) -> Seq<char> {
    dec_digits(current + 1) + seq!['/'] + dec_digits(if total >= 1 { total } else { 1 })
}

pub fn page_label(current: usize, total: usize) -> (s: String)
    requires
        current < u64::MAX,
    ensures
        s@ == spec_page_label(current as nat, total as nat),
{
    let a = decimal_string(current as u64 + 1);
    let b = decimal_string(if total >= 1 { total as u64 } else { 1 });
    let mut v: Vec<char> = Vec::new();
    let ca = crate::text::chars_of(a.as_str());
    let cb = crate::text::chars_of(b.as_str());
    let mut i: usize = 0;
    while i < ca.len()
        invariant
            i <= ca.len(),
            v@ == ca@.take(i as int),
        decreases ca.len() - i,
    {
        v.push(ca[i]);
        assert(ca@.take(i as int + 1) =~= ca@.take(i as int).push(ca@[i as int]));
        i = i + 1;
    }
    v.push('/');
    let mut j: usize = 0;
    while j < cb.len()
        invariant
            j <= cb.len(),
            v@ == ca@ + seq!['/'] + cb@.take(j as int),
        decreases cb.len() - j,
    {
        v.push(cb[j]);
        assert(cb@.take(j as int + 1) =~= cb@.take(j as int).push(cb@[j as int]));
        j = j + 1;
    }
    assert(ca@.take(ca@.len() as int) =~= ca@);
    assert(cb@.take(cb@.len() as int) =~= cb@);
    string_of(&v)
}

/// The item shown in slot `slot` of a page starting at `start`, if any.
pub fn slot_entry(items: &Vec<(BlockType, u32)>, start: usize, slot: usize) -> (r: Option<(BlockType, u32)>)
    ensures
        r == (if start + slot < items@.len() { Some(items@[start + slot]) } else { None }),
{
    if start < items.len() && slot < items.len() - start {
        Some(items[start + slot])
    } else {
        None
    }
}

/// The count printed on a panel slot: the amount when more than one, else nothing.
pub fn panel_count_label(count: u32) -> (s: String)
    ensures
        s@ == (if count > 1 { dec_digits(count as nat) } else { Seq::empty() }),
{
    if count > 1 {
        decimal_string(count as u64)
    } else {
        String::new()
    }
}

/// The creative panel lists every item of the category with a full stack of 64.
pub fn creative_panel_items(in_category: &Vec<BlockType>) -> (v: Vec<(BlockType, u32)>)
    ensures
        v@.len() == in_category@.len(),
        forall|i: int| 0 <= i < v@.len() ==> #[trigger] v@[i] == (in_category@[i], 64u32),
{
    let mut v: Vec<(BlockType, u32)> = Vec::new();
    let mut i: usize = 0;
    while i < in_category.len()
        invariant
            i <= in_category.len(),
            v@.len() == i,
            forall|k: int| 0 <= k < i ==> #[trigger] v@[k] == (in_category@[k], 64u32),
        decreases in_category.len() - i,
    {
        v.push((in_category[i], 64));
        i = i + 1;
    }
    v
}

/// Pressing a panel slot that shows `entry`: in creative mode a stack of 64
/// goes to the hand; with a storage platform up to 64 are taken out of it into
/// the hand, when it holds any. The hand's previous stack is replaced.
pub fn upper_panel_slot_click(held: &mut Slot, store: &mut ItemStore, creative: bool, has_platform: bool, entry: Option<BlockType>)
    requires
        old(store).wf(),
    ensures
        final(store).wf(),
        match entry {
            None => *final(held) == *old(held) && final(store).counts@ == old(store).counts@,
            Some(b) => if creative {
                *final(held) == Some((b, 64u32)) && final(store).counts@ == old(store).counts@
            } else if has_platform && old(store).count(b) > 0 {
                let take = if old(store).count(b) < 64 { old(store).count(b) } else { 64 };
                &&& *final(held) == Some((b, take))
                &&& final(store).count(b) == old(store).count(b) - take
                &&& forall|x: BlockType| x != b ==> final(store).count(x) == old(store).count(x)
            } else {
                *final(held) == *old(held) && final(store).counts@ == old(store).counts@
            },
        },
{
    let b = match entry {
        Some(b) => b,
        None => return,
    };
    if creative {
        *held = Some((b, 64));
    } else if has_platform {
        let have = store.get_count(b);
        let take = if have < 64 { have } else { 64 };
        if take > 0 {
            let _ = store.remove_item(b, take);
            *held = Some((b, take));
        }
    }
}

/// The page buttons: next adds one, previous takes one; both stop at the ends
/// of `usize` (the shown page is clamped when drawn).
pub fn upper_panel_page_nav(page: &mut usize, next: bool)
    ensures
        *final(page) == (if next {
            if *old(page) == usize::MAX { usize::MAX } else { (*old(page) + 1) as usize }
        } else {
            if *old(page) == 0 { 0 } else { (*old(page) - 1) as usize }
        }),
{
    if next {
        if *page < usize::MAX {
            *page = *page + 1;
        }
    } else if *page > 0 {
        *page = *page - 1;
    }
}

/// Choosing another category tab switches to it and goes back to the first page;
/// choosing the current one changes nothing.
pub fn upper_panel_category_click(category: &mut u32, page: &mut usize, tab: u32)
    ensures
        *final(category) == tab,
        *final(page) == (if *old(category) != tab { 0 } else { *old(page) }),
{
    if *category != tab {
        *category = tab;
        *page = 0;
    }
}

/// The page shown is always a real page (or page 0 of an empty list), and the
/// slots of the shown page start inside the list.
pub proof fn law_shown_page_in_range(n: nat, per: nat, page: nat)
    requires
        per > 0,
    ensures
        spec_current_page(page, spec_total_pages(n, per)) * per <= n,
        n > 0 ==> spec_current_page(page, spec_total_pages(n, per)) < spec_total_pages(n, per),
{
    let t = spec_total_pages(n, per);
    let c = spec_current_page(page, t);
    assert(c * per <= n) by (nonlinear_arith)
        requires
            per > 0,
            t == ((n + per - 1) / (per as int)) as nat,
            c <= if t >= 1 { t - 1 } else { 0 },
    ;
    if n > 0 {
        assert(t >= 1) by (nonlinear_arith)
            requires
                per > 0,
                n > 0,
                t == ((n + per - 1) / (per as int)) as nat,
        ;
    }
}

} // verus!
