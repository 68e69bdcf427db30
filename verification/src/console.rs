//! The command input line: opening it, typing, completing from suggestions with
//! Tab, and running the typed command with Enter.

use vstd::prelude::*;
use crate::command::{lower_word, lowercase_of};

verus! {

/// The keys the command line reacts to.
#[derive(Clone, Copy, Debug, PartialEq, Eq, Structural)]
pub enum Key {
    A, B, C, D, E, F, G, H, I, J, K, L, M, N, O, P, Q, R, S, T, U, V, W, X, Y, Z,
    Digit0, Digit1, Digit2, Digit3, Digit4, Digit5, Digit6, Digit7, Digit8, Digit9,
    Space,
    Minus,
    Equal,
    Slash,
    Tab,
    Escape,
    Enter,
    Backspace,
    /// Any other key.
    Other,
}

/// The character a key types, with or without shift (US layout).
pub open spec fn spec_key_char(k: Key, shift: bool) -> Option<char> {
    match k {
        Key::A => Some(if shift { 'A' } else { 'a' }),
        Key::B => Some(if shift { 'B' } else { 'b' }),
        Key::C => Some(if shift { 'C' } else { 'c' }),
        Key::D => Some(if shift { 'D' } else { 'd' }),
        Key::E => Some(if shift { 'E' } else { 'e' }),
        Key::F => Some(if shift { 'F' } else { 'f' }),
        Key::G => Some(if shift { 'G' } else { 'g' }),
        Key::H => Some(if shift { 'H' } else { 'h' }),
        Key::I => Some(if shift { 'I' } else { 'i' }),
        Key::J => Some(if shift { 'J' } else { 'j' }),
        Key::K => Some(if shift { 'K' } else { 'k' }),
        Key::L => Some(if shift { 'L' } else { 'l' }),
        Key::M => Some(if shift { 'M' } else { 'm' }),
        Key::N => Some(if shift { 'N' } else { 'n' }),
        Key::O => Some(if shift { 'O' } else { 'o' }),
        Key::P => Some(if shift { 'P' } else { 'p' }),
        Key::Q => Some(if shift { 'Q' } else { 'q' }),
        Key::R => Some(if shift { 'R' } else { 'r' }),
        Key::S => Some(if shift { 'S' } else { 's' }),
        Key::T => Some(if shift { 'T' } else { 't' }),
        Key::U => Some(if shift { 'U' } else { 'u' }),
        Key::V => Some(if shift { 'V' } else { 'v' }),
        Key::W => Some(if shift { 'W' } else { 'w' }),
        Key::X => Some(if shift { 'X' } else { 'x' }),
        Key::Y => Some(if shift { 'Y' } else { 'y' }),
        Key::Z => Some(if shift { 'Z' } else { 'z' }),
        Key::Digit0 => Some(if shift { ')' } else { '0' }),
        Key::Digit1 => Some(if shift { '!' } else { '1' }),
        Key::Digit2 => Some(if shift { '@' } else { '2' }),
        Key::Digit3 => Some(if shift { '#' } else { '3' }),
        Key::Digit4 => Some(if shift { '$' } else { '4' }),
        Key::Digit5 => Some(if shift { '%' } else { '5' }),
        Key::Digit6 => Some(if shift { '^' } else { '6' }),
        Key::Digit7 => Some(if shift { '&' } else { '7' }),
        Key::Digit8 => Some(if shift { '*' } else { '8' }),
        Key::Digit9 => Some(if shift { '(' } else { '9' }),
        Key::Space => Some(' '),
        Key::Minus => Some(if shift { '_' } else { '-' }),
        Key::Equal => Some(if shift { '+' } else { '=' }),
        Key::Slash => Some(if shift { '?' } else { '/' }),
        _ => None,
    }
}

pub fn keycode_to_char(k: Key, shift: bool) -> (r: Option<char>)
    ensures
        r == spec_key_char(k, shift),
{
    match k {
        Key::A => Some(if shift { 'A' } else { 'a' }),
        Key::B => Some(if shift { 'B' } else { 'b' }),
        Key::C => Some(if shift { 'C' } else { 'c' }),
        Key::D => Some(if shift { 'D' } else { 'd' }),
        Key::E => Some(if shift { 'E' } else { 'e' }),
        Key::F => Some(if shift { 'F' } else { 'f' }),
        Key::G => Some(if shift { 'G' } else { 'g' }),
        Key::H => Some(if shift { 'H' } else { 'h' }),
        Key::I => Some(if shift { 'I' } else { 'i' }),
        Key::J => Some(if shift { 'J' } else { 'j' }),
        Key::K => Some(if shift { 'K' } else { 'k' }),
        Key::L => Some(if shift { 'L' } else { 'l' }),
        Key::M => Some(if shift { 'M' } else { 'm' }),
        Key::N => Some(if shift { 'N' } else { 'n' }),
        Key::O => Some(if shift { 'O' } else { 'o' }),
        Key::P => Some(if shift { 'P' } else { 'p' }),
        Key::Q => Some(if shift { 'Q' } else { 'q' }),
        Key::R => Some(if shift { 'R' } else { 'r' }),
        Key::S => Some(if shift { 'S' } else { 's' }),
        Key::T => Some(if shift { 'T' } else { 't' }),
        Key::U => Some(if shift { 'U' } else { 'u' }),
        Key::V => Some(if shift { 'V' } else { 'v' }),
        Key::W => Some(if shift { 'W' } else { 'w' }),
        Key::X => Some(if shift { 'X' } else { 'x' }),
        Key::Y => Some(if shift { 'Y' } else { 'y' }),
        Key::Z => Some(if shift { 'Z' } else { 'z' }),
        Key::Digit0 => Some(if shift { ')' } else { '0' }),
        Key::Digit1 => Some(if shift { '!' } else { '1' }),
        Key::Digit2 => Some(if shift { '@' } else { '2' }),
        Key::Digit3 => Some(if shift { '#' } else { '3' }),
        Key::Digit4 => Some(if shift { '$' } else { '4' }),
        Key::Digit5 => Some(if shift { '%' } else { '5' }),
        Key::Digit6 => Some(if shift { '^' } else { '6' }),
        Key::Digit7 => Some(if shift { '&' } else { '7' }),
        Key::Digit8 => Some(if shift { '*' } else { '8' }),
        Key::Digit9 => Some(if shift { '(' } else { '9' }),
        Key::Space => Some(' '),
        Key::Minus => Some(if shift { '_' } else { '-' }),
        Key::Equal => Some(if shift { '+' } else { '=' }),
        Key::Slash => Some(if shift { '?' } else { '/' }),
        _ => None,
    }
}

pub open spec fn is_prefix(p: Seq<char>, s: Seq<char>) -> bool {
    p.len() <= s.len() && s.take(p.len() as int) == p
}

/// Every candidate whose lower-cased form starts with `p`, in order.
pub open spec fn matching(cands: Seq<Seq<char>>, p: Seq<char>) -> Seq<Seq<char>>
    decreases cands.len(),
{
    if cands.len() == 0 {
        Seq::empty()
    } else {
        let rest = matching(cands.drop_last(), p);
        if is_prefix(p, lowercase_of(cands.last())) {
            rest.push(cands.last())
        } else {
            rest
        }
    }
}

/// Suggestions for the typed text: none for empty text, else the first five
/// candidates that start with it, ignoring case.
pub open spec fn spec_suggestions(input: Seq<char>, cands: Seq<Seq<char>>) -> Seq<Seq<char>> {
    if input.len() == 0 {
        Seq::empty()
    } else {
        let m = matching(cands, lowercase_of(input));
        if m.len() <= 5 {
            m
        } else {
            m.take(5)
        }
    }
}

proof fn lemma_matching_prefix(cands: Seq<Seq<char>>, p: Seq<char>, i: int)
    requires
        0 <= i <= cands.len(),
    ensures
        matching(cands.take(i), p).len() <= matching(cands, p).len(),
        matching(cands, p).take(matching(cands.take(i), p).len() as int) == matching(cands.take(i), p),
    decreases cands.len() - i,
{
    if i == cands.len() {
        assert(cands.take(i) =~= cands);
        assert(matching(cands, p).take(matching(cands, p).len() as int) =~= matching(cands, p));
    } else {
        lemma_matching_prefix(cands, p, i + 1);
        assert(cands.take(i + 1).drop_last() =~= cands.take(i));
        let a = matching(cands.take(i), p);
        let b = matching(cands.take(i + 1), p);
        let all = matching(cands, p);
        assert(all.take(a.len() as int) =~= b.take(a.len() as int));
        assert(b.take(a.len() as int) =~= a);
    }
}

fn chars_prefix(p: &Vec<char>, s: &Vec<char>) -> (r: bool)
    ensures
        r == is_prefix(p@, s@),
{
    if p.len() > s.len() {
        return false;
    }
    let mut i: usize = 0;
    while i < p.len()
        invariant
            i <= p.len() <= s.len(),
            forall|j: int| 0 <= j < i ==> p@[j] == s@[j],
        decreases p.len() - i,
    {
        if p[i] != s[i] {
            assert(s@.take(p.len() as int)[i as int] != p@[i as int]);
            return false;
        }
        i = i + 1;
    }
    assert(s@.take(p@.len() as int) =~= p@);
    true
}

/// Command suggestions for the typed text (see [`spec_suggestions`]).
pub fn get_suggestions(input: &Vec<char>, candidates: &Vec<Vec<char>>) -> (r: Vec<Vec<char>>)
    ensures
        r@.len() == spec_suggestions(input@, candidates@.map_values(|c: Vec<char>| c@)).len(),
        forall|i: int| 0 <= i < r@.len() ==> (#[trigger] r@[i])@ == spec_suggestions(
            input@,
            candidates@.map_values(|c: Vec<char>| c@),
        )[i],
{
    let ghost cands = candidates@.map_values(|c: Vec<char>| c@);
    let mut r: Vec<Vec<char>> = Vec::new();
    if input.len() == 0 {
        return r;
    }
    let lower_input = lower_word(input);
    let ghost p = lowercase_of(input@);
    let mut i: usize = 0;
    while i < candidates.len()
        invariant
            i <= candidates.len(),
            cands == candidates@.map_values(|c: Vec<char>| c@),
            lower_input@ == p,
            r@.len() == matching(cands.take(i as int), p).len(),
            r@.len() <= 5,
            forall|k: int| 0 <= k < r@.len() ==> (#[trigger] r@[k])@ == matching(cands.take(i as int), p)[k],
        ensures
            r@.len() == matching(cands.take(i as int), p).len(),
            r@.len() <= 5,
            forall|k: int| 0 <= k < r@.len() ==> (#[trigger] r@[k])@ == matching(cands.take(i as int), p)[k],
            i == candidates.len() || r@.len() == 5,
        decreases candidates.len() - i,
    {
        if r.len() >= 5 {
            break;
        }
        proof {
            assert(cands.take(i as int + 1).drop_last() =~= cands.take(i as int));
            assert(cands.take(i as int + 1).last() == candidates@[i as int]@);
        }
        let lowered = lower_word(&candidates[i]);
        if chars_prefix(&lower_input, &lowered) {
            r.push(candidates[i].clone());
        }
        i = i + 1;
    }
    proof {
        lemma_matching_prefix(cands, p, i as int);
        let m = matching(cands, p);
        let mi = matching(cands.take(i as int), p);
        if i == candidates.len() {
            assert(cands.take(i as int) =~= cands);
        }
    }
    r
}

/// State of the command input line.
pub struct CommandInputState {
    pub open: bool,
    pub text: Vec<char>,
    /// Which suggestion Tab picks next.
    pub suggestion_index: usize,
    /// Ignore typed keys for one frame (the key that opened the line).
    pub skip_input_frame: bool,
}

impl CommandInputState {
    pub fn new() -> (s: CommandInputState)
        ensures
            !s.open,
            s.text@.len() == 0,
            s.suggestion_index == 0,
            !s.skip_input_frame,
    {
        CommandInputState { open: false, text: Vec::new(), suggestion_index: 0, skip_input_frame: false }
    }
}

/// Open the command line with T or slash when it is closed and no other window
/// is open. Opening clears the text, skips typed input for this frame and, for
/// slash, starts the text with a slash. Returns whether it opened.
pub fn command_input_toggle(
    state: &mut CommandInputState,
    other_ui_open: bool,
    t_pressed: bool,
    slash_pressed: bool,
) -> (opened: bool)
    ensures
        opened == (!other_ui_open && !old(state).open && (t_pressed || slash_pressed)),
        opened ==> final(state).open && final(state).skip_input_frame
            && final(state).text@ == (if slash_pressed { seq!['/'] } else { Seq::<char>::empty() })
            && final(state).suggestion_index == old(state).suggestion_index,
        !opened ==> final(state).open == old(state).open && final(state).text@ == old(state).text@
            && final(state).suggestion_index == old(state).suggestion_index
            && final(state).skip_input_frame == old(state).skip_input_frame,
{
    if other_ui_open {
        return false;
    }
    if !state.open && (t_pressed || slash_pressed) {
        state.open = true;
        state.text = Vec::new();
        state.skip_input_frame = true;
        if slash_pressed {
            state.text.push('/');
        }
        proof {
            if slash_pressed {
                assert(state.text@ =~= seq!['/']);
            }
        }
        return true;
    }
    false
}

/// The keys pressed in one frame while the command line is open.
pub struct ConsoleKeys {
    pub escape: bool,
    pub tab: bool,
    pub enter: bool,
    pub backspace: bool,
    pub shift: bool,
    /// Keys that went down this frame, in order.
    pub pressed: Vec<Key>,
}

/// What the frame did to the command line.
pub enum ConsoleOutcome {
    /// The line is closed; nothing happened.
    Inactive,
    /// Escape closed the line without running anything.
    Closed,
    /// Enter closed the line; this command is to be run.
    Executed(Vec<char>),
    /// The line stays open (its text may have changed).
    Editing,
}

/// The text after typing the keys in order (Tab types nothing).
pub open spec fn typed(text: Seq<char>, keys: Seq<Key>, shift: bool) -> Seq<char>
    decreases keys.len(),
{
    if keys.len() == 0 {
        text
    } else {
        let t = typed(text, keys.drop_last(), shift);
        if keys.last() != Key::Tab && spec_key_char(keys.last(), shift) is Some {
            t.push(spec_key_char(keys.last(), shift).unwrap())
        } else {
            t
        }
    }
}

/// Some typed key produced a character.
pub open spec fn any_typed(keys: Seq<Key>, shift: bool) -> bool {
    exists|i: int| 0 <= i < keys.len() && keys[i] != Key::Tab && spec_key_char(#[trigger] keys[i], shift) is Some
}

/// Handle one frame of keys on the command line.
///
/// Escape closes it and clears it. Tab replaces the text with the next suggestion
/// (cycling). Enter closes it, clears it and hands back the command. Backspace
/// deletes the last character. Otherwise typed characters are appended, except in
/// the frame the line was opened in.
pub fn command_input_handler(
    state: &mut CommandInputState,
    keys: &ConsoleKeys,
    candidates: &Vec<Vec<char>>,
) -> (out: ConsoleOutcome)
    ensures
        !old(state).open ==> out is Inactive && final(state).open == old(state).open
            && final(state).text@ == old(state).text@
            && final(state).suggestion_index == old(state).suggestion_index
            && final(state).skip_input_frame == old(state).skip_input_frame,
        old(state).open && keys.escape ==> out is Closed && !final(state).open
            && final(state).text@.len() == 0 && final(state).suggestion_index == 0,
        old(state).open && !keys.escape && keys.enter ==> !final(state).open
            && final(state).text@.len() == 0 && final(state).suggestion_index == 0 && (
        match out {
            ConsoleOutcome::Executed(cmd) => {
                let sugg = spec_suggestions(old(state).text@, candidates@.map_values(|c: Vec<char>| c@));
                cmd@ == (if keys.tab && sugg.len() > 0 {
                    sugg[(old(state).suggestion_index as int) % (sugg.len() as int)]
                } else {
                    old(state).text@
                })
            },
            _ => false,
        }),
        old(state).open && !keys.escape && !keys.enter ==> out is Editing && final(state).open && ({
            let sugg = spec_suggestions(old(state).text@, candidates@.map_values(|c: Vec<char>| c@));
            let after_tab = if keys.tab && sugg.len() > 0 {
                sugg[(old(state).suggestion_index as int) % (sugg.len() as int)]
            } else {
                old(state).text@
            };
            let after_back = if keys.backspace && after_tab.len() > 0 {
                after_tab.drop_last()
            } else {
                after_tab
            };
            &&& final(state).text@ == (if old(state).skip_input_frame {
                after_back
            } else {
                typed(after_back, keys.pressed@, keys.shift)
            })
            &&& !final(state).skip_input_frame
            &&& final(state).suggestion_index == ({
                let i1 = if keys.tab && sugg.len() > 0 {
                    (((old(state).suggestion_index as int) % (sugg.len() as int) + 1) % (sugg.len() as int)) as usize
                } else {
                    old(state).suggestion_index
                };
                let i2: usize = if keys.backspace { 0 } else { i1 };
                if !old(state).skip_input_frame && any_typed(keys.pressed@, keys.shift) { 0 } else { i2 }
            })
        }),
{
    if !state.open {
        return ConsoleOutcome::Inactive;
    }
    if keys.escape {
        state.open = false;
        state.text = Vec::new();
        state.suggestion_index = 0;
        return ConsoleOutcome::Closed;
    }
    let ghost cands = candidates@.map_values(|c: Vec<char>| c@);
    if keys.tab {
        let suggestions = get_suggestions(&state.text, candidates);
        if suggestions.len() > 0 {
            let idx = state.suggestion_index % suggestions.len();
            let picked = suggestions[idx].clone();
            assert(picked@ =~= suggestions@[idx as int]@);
            state.text = picked;
            state.suggestion_index = (idx + 1) % suggestions.len();
        }
    }
    if keys.enter {
        let command = state.text.clone();
        assert(command@ =~= state.text@);
        state.open = false;
        state.text = Vec::new();
        state.suggestion_index = 0;
        return ConsoleOutcome::Executed(command);
    }
    if keys.backspace {
        if state.text.len() > 0 {
            state.text.pop();
        }
        state.suggestion_index = 0;
    }
    if state.skip_input_frame {
        state.skip_input_frame = false;
    } else {
        let ghost start = state.text@;
        let ghost idx_before = state.suggestion_index;
        let mut i: usize = 0;
        while i < keys.pressed.len()
            invariant
                i <= keys.pressed.len(),
                state.open,
                !state.skip_input_frame,
                state.text@ == typed(start, keys.pressed@.take(i as int), keys.shift),
                state.suggestion_index == (if any_typed(keys.pressed@.take(i as int), keys.shift) { 0 } else { idx_before }),
            decreases keys.pressed.len() - i,
        {
            proof {
                assert(keys.pressed@.take(i as int + 1).drop_last() =~= keys.pressed@.take(i as int));
            }
            let k = keys.pressed[i];
            if k != Key::Tab {
                if let Some(c) = keycode_to_char(k, keys.shift) {
                    state.text.push(c);
                    state.suggestion_index = 0;
                }
            }
            i = i + 1;
        }
        proof {
            assert(keys.pressed@.take(i as int) =~= keys.pressed@);
        }
    }
    ConsoleOutcome::Editing
}

/// The suggestion row that is highlighted: the selection index taken round the
/// number of suggestions; rows past the list are hidden.
pub fn highlighted_suggestion(n_suggestions: usize, suggestion_index: usize) -> (r: usize)
    ensures
        r == suggestion_index % (if n_suggestions >= 1 { n_suggestions } else { 1 }),
        n_suggestions >= 1 ==> r < n_suggestions,
{
    let m = if n_suggestions >= 1 { n_suggestions } else { 1 };
    suggestion_index % m
}

} // verus!
