//! The debug overlay's integer parts and the floating-block check of the state
//! export.

use vstd::prelude::*;
use crate::conveyor::first_index_from;
use crate::geometry::{Direction, Pos};
use crate::text::{int_digits, push_int, push_str_chars, string_of};

verus! {

/// F3 shows or hides the debug overlay.
pub fn toggle_debug_hud(visible: &mut bool, f3_pressed: bool)
    ensures
        *final(visible) == (if f3_pressed { !*old(visible) } else { *old(visible) }),
{
    if f3_pressed {
        *visible = !*visible;
    }
}

/// A block position written "(x,y,z)".
pub open spec fn spec_pos_label(p: Pos) -> Seq<char> {
    seq!['('] + int_digits(p.x as int) + seq![','] + int_digits(p.y as int) + seq![','] + int_digits(p.z as int) + seq![')']
}

/// A target position as the overlay shows it: "(x,y,z)", or "None".
pub open spec fn spec_target_label(p: Option<Pos>) -> Seq<char> {
    match p {
        Some(p) => spec_pos_label(p),
        None => seq!['N', 'o', 'n', 'e'],
    }
}

pub fn target_label(p: Option<Pos>) -> (s: String)
    ensures
        s@ == spec_target_label(p),
{
    let mut v: Vec<char> = Vec::new();
    match p {
        Some(p) => {
            v.push('(');
            push_int(&mut v, p.x);
            v.push(',');
            push_int(&mut v, p.y);
            v.push(',');
            push_int(&mut v, p.z);
            v.push(')');
            assert(v@ =~= spec_pos_label(p));
        },
        None => {
            push_str_chars(&mut v, "None");
            proof {
                reveal_strlit("None");
            }
            assert(v@ =~= seq!['N', 'o', 'n', 'e']);
        },
    }
    string_of(&v)
}

/// What stands on the block below `below` is supported when that block is at
/// height 8 or lower (the ground) or is solid.
pub open spec fn spec_is_supported(below: Pos, solid: bool) -> bool {
    below.y <= 8 || solid
}

pub fn is_supported(below: Pos, solid: bool) -> (r: bool)
    ensures
        r == spec_is_supported(below, solid),
{
    below.y <= 8 || solid
}

/// The belts and machines (given by position, each with whether the block
/// under it is solid) that float: nothing under them and above the ground.
pub open spec fn spec_floating(positions: Seq<Pos>, below_solid: Seq<bool>) -> Seq<Pos>
    decreases positions.len(),
{
    if positions.len() == 0 {
        Seq::empty()
    } else {
        let n = (positions.len() - 1) as int;
        let prev = spec_floating(positions.drop_last(), below_solid);
        let p = positions[n];
        if !(p.y - 1 <= 8 || below_solid[n]) {
            prev.push(p)
        } else {
            prev
        }
    }
}

pub fn check_floating_blocks(positions: &Vec<Pos>, below_solid: &Vec<bool>) -> (v: Vec<Pos>)
    requires
        below_solid@.len() == positions@.len(),
    ensures
        v@ == spec_floating(positions@, below_solid@),
{
    let mut v: Vec<Pos> = Vec::new();
    let mut i: usize = 0;
    while i < positions.len()
        invariant
            i <= positions.len(),
            below_solid@.len() == positions@.len(),
            v@ == spec_floating(positions@.take(i as int), below_solid@),
        decreases positions.len() - i,
    {
        let p = positions[i];
        proof {
            assert(positions@.take(i as int + 1).drop_last() =~= positions@.take(i as int));
        }
        if !(p.y <= 9 || below_solid[i]) {
            v.push(p);
        }
        i = i + 1;
    }
    assert(positions@.take(i as int) =~= positions@);
    v
}

/// For the connection dump: the belt (by index, the first listed there) at a
/// machine's input port, behind it, and at its output, in front of it.
pub fn machine_connections(pos: Pos, facing: Direction, belts: &Vec<Pos>) -> (r: (Option<usize>, Option<usize>))
    requires
        pos.interior(),
    ensures
        r.0 matches Some(i) ==> first_index_from(belts@, pos.spec_step(facing.spec_opposite()), 0) == Some(i as int),
        r.0 is None ==> first_index_from(belts@, pos.spec_step(facing.spec_opposite()), 0) is None,
        r.1 matches Some(i) ==> first_index_from(belts@, pos.spec_step(facing), 0) == Some(i as int),
        r.1 is None ==> first_index_from(belts@, pos.spec_step(facing), 0) is None,
{
    let input = pos.step(facing.opposite());
    let output = pos.step(facing);
    (crate::conveyor::first_index(belts, input), crate::conveyor::first_index(belts, output))
}

} // verus!
