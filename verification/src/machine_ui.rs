//! Opening and closing a machine's window (furnace, crusher or miner).

use vstd::prelude::*;

verus! {

/// What a frame of machine interaction did.
#[derive(Clone, Copy, Debug, PartialEq, Eq, Structural)]
pub enum InteractOutcome {
    /// Nothing changed.
    Ignored,
    /// The open window closed: with Escape the cursor is released, with E it
    /// stays locked for play.
    Closed { release_cursor: bool },
    /// The window of this machine entity opened (the cursor is freed for it).
    Opened(u64),
}

/// Which window is open after a frame, and what the frame did (see [`machine_interact`]).
pub open spec fn spec_interact(
    open: Option<u64>,
    blocked: bool,
    e_pressed: bool,
    esc_pressed: bool,
    right_click: bool,
    cursor_locked: bool,
    hit: Option<u64>,
) -> (Option<u64>, InteractOutcome) {
    if blocked {
        (open, InteractOutcome::Ignored)
    } else if open is Some && (e_pressed || esc_pressed) {
        (None, InteractOutcome::Closed { release_cursor: esc_pressed })
    } else if right_click && cursor_locked && hit is Some {
        (hit, InteractOutcome::Opened(hit.unwrap()))
    } else {
        (open, InteractOutcome::Ignored)
    }
}

/// One frame of right-click interaction with one kind of machine. Nothing
/// happens while another window, the command line or the pause menu is up.
/// With this kind's window open, E or Escape closes it. Otherwise a right click
/// with the cursor locked opens the window of the machine the view ray hits
/// first within reach (`hit`), if any.
pub fn machine_interact(
    open: &mut Option<u64>,
    blocked: bool,
    e_pressed: bool,
    esc_pressed: bool,
    right_click: bool,
    cursor_locked: bool,
    hit: Option<u64>,
) -> (out: InteractOutcome)
    ensures
        (*final(open), out) == spec_interact(*old(open), blocked, e_pressed, esc_pressed, right_click, cursor_locked, hit),
{
    if blocked {
        return InteractOutcome::Ignored;
    }
    if open.is_some() && (e_pressed || esc_pressed) {
        *open = None;
        return InteractOutcome::Closed { release_cursor: esc_pressed };
    }
    if !right_click || !cursor_locked {
        return InteractOutcome::Ignored;
    }
    match hit {
        Some(e) => {
            *open = Some(e);
            InteractOutcome::Opened(e)
        },
        None => InteractOutcome::Ignored,
    }
}

/// A window opened on a machine closes again with E (keeping the cursor
/// locked) or Escape (releasing it).
pub proof fn law_open_then_close(prev: Option<u64>, target: u64, esc: bool)
    ensures
        ({
            let opened = spec_interact(prev, false, false, false, true, true, Some(target));
            let closed = spec_interact(opened.0, false, !esc, esc, false, true, None);
            &&& opened == (Some(target), InteractOutcome::Opened(target))
            &&& closed == (None::<u64>, InteractOutcome::Closed { release_cursor: esc })
        }),
{
}

} // verus!
