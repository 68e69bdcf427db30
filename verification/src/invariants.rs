//! Run-time checks on the player: stuck detection, the violation log kept to
//! its last second of entries, and which violations get written out.

use vstd::prelude::*;

verus! {

/// The kind of a broken player invariant.
#[derive(Clone, Copy, Debug, PartialEq, Eq, Structural)]
pub enum ViolationKind {
    /// The player's box overlaps a solid block.
    Embedded,
    /// The player pushes a movement key but does not move.
    Stuck,
    /// The player fell below the world floor.
    Fell,
}

/// Frames without movement, while a movement key is held, after which the
/// player counts as stuck.
pub const STUCK_THRESHOLD_FRAMES: u32 = 180;

pub open spec fn spec_violation_key(k: ViolationKind) -> Seq<char> {
    match k {
        ViolationKind::Embedded => seq!['E', 'M', 'B', 'E', 'D', 'D', 'E', 'D'],
        ViolationKind::Stuck => seq!['S', 'T', 'U', 'C', 'K'],
        ViolationKind::Fell => seq!['F', 'E', 'L', 'L'],
    }
}

/// The word that starts a violation's log line and tells repeats apart.
pub fn get_violation_key(k: ViolationKind) -> (s: String)
    ensures
        s@ == spec_violation_key(k),
{
    let v: Vec<char> = match k {
        ViolationKind::Embedded => vec!['E', 'M', 'B', 'E', 'D', 'D', 'E', 'D'],
        ViolationKind::Stuck => vec!['S', 'T', 'U', 'C', 'K'],
        ViolationKind::Fell => vec!['F', 'E', 'L', 'L'],
    };
    assert(v@ =~= spec_violation_key(k));
    crate::text::string_of(&v)
}

/// Counts frames in which the player wants to move but does not.
#[derive(Clone, Copy, Debug, PartialEq, Eq, Structural)]
pub struct StuckDetector {
    pub stuck_frames: u32,
    pub has_input: bool,
}

impl Default for StuckDetector {
    fn default() -> (d: StuckDetector)
        ensures
            d.stuck_frames == 0,
            !d.has_input,
    {
        StuckDetector { stuck_frames: 0, has_input: false }
    }
}

/// Remember whether a movement key is held this frame.
pub fn track_movement_input(d: &mut StuckDetector, forward: bool, backward: bool, left: bool, right: bool)
    ensures
        final(d).has_input == (forward || backward || left || right),
        final(d).stuck_frames == old(d).stuck_frames,
{
    d.has_input = forward || backward || left || right;
}

/// One frame of stuck detection. `still` says the player neither moved nor has
/// speed. With a movement key held and the player still, the count goes up,
/// else it goes back to zero. Returns true on the one frame the count reaches
/// the threshold (a stuck violation is reported once per episode).
pub fn check_player_stuck(d: &mut StuckDetector, still: bool) -> (report: bool)
    requires
        old(d).stuck_frames < u32::MAX,
    ensures
        final(d).has_input == old(d).has_input,
        final(d).stuck_frames == (if old(d).has_input && still { old(d).stuck_frames + 1 } else { 0 }),
        report == (final(d).stuck_frames == STUCK_THRESHOLD_FRAMES),
{
    if d.has_input && still {
        d.stuck_frames = d.stuck_frames + 1;
        d.stuck_frames == STUCK_THRESHOLD_FRAMES
    } else {
        d.stuck_frames = 0;
        false
    }
}

/// One recorded violation: its kind, its printed message and when it was
/// recorded (milliseconds on the game clock).
pub type Violation = (ViolationKind, String, u64);

/// The recent violations, how many of them have been written out, and the kind
/// written last.
pub struct ViolationLog {
    pub violations: Vec<Violation>,
    pub saved_count: usize,
    pub last_saved_violation: Option<ViolationKind>,
}

impl Default for ViolationLog {
    fn default() -> (l: ViolationLog)
        ensures
            l.violations@.len() == 0,
            l.saved_count == 0,
            l.last_saved_violation is None,
    {
        ViolationLog { violations: Vec::new(), saved_count: 0, last_saved_violation: None }
    }
}

/// How long a violation stays in the log, in milliseconds.
pub const VIOLATION_LIFETIME_MS: u64 = 1000;

/// The violation was recorded more than one second before `now`.
pub open spec fn is_old(v: Violation, now: u64) -> bool {
    now as int - v.2 as int > VIOLATION_LIFETIME_MS as int
}

/// The violations among the first `n` that are not old, in their order.
pub open spec fn recent(v: Seq<Violation>, now: u64, n: int) -> Seq<Violation>
    decreases n,
{
    if n <= 0 {
        Seq::empty()
    } else {
        let prev = recent(v, now, n - 1);
        if is_old(v[n - 1], now) { prev } else { prev.push(v[n - 1]) }
    }
}

proof fn lemma_recent_len(v: Seq<Violation>, now: u64, n: int)
    ensures
        recent(v, now, n).len() <= if n < 0 { 0 } else { n },
    decreases n,
{
    if n > 0 {
        lemma_recent_len(v, now, n - 1);
    }
}

/// Drop the violations recorded more than one second before `now`; the others
/// stay, in their order. The written count becomes the number of written
/// violations that stay (written ones are the first `saved_count`).
pub fn clear_old_violations(log: &mut ViolationLog, now: u64)
    ensures
        final(log).violations@ == recent(old(log).violations@, now, old(log).violations@.len() as int),
        final(log).saved_count == recent(
            old(log).violations@,
            now,
            if old(log).saved_count <= old(log).violations@.len() { old(log).saved_count as int } else { old(log).violations@.len() as int },
        ).len(),
        final(log).last_saved_violation == old(log).last_saved_violation,
{
    let ghost start = log.violations@;
    let len = log.violations.len();
    let mut kept: Vec<Violation> = Vec::new();
    let mut saved: usize = 0;
    let mut i: usize = 0;
    while i < len
        invariant
            len == start.len(),
            log.violations@ == start,
            i <= len,
            kept@ == recent(start, now, i as int),
            saved as int == recent(start, now, if old(log).saved_count <= i { old(log).saved_count as int } else { i as int }).len(),
        decreases len - i,
    {
        proof {
            lemma_recent_len(start, now, i as int);
        }
        let k = log.violations[i].0;
        let t = log.violations[i].2;
        if !(now >= t && now - t > VIOLATION_LIFETIME_MS) {
            let m = log.violations[i].1.clone();
            kept.push((k, m, t));
            if i < log.saved_count {
                saved = saved + 1;
            }
        }
        proof {
            assert(kept@ =~= recent(start, now, i as int + 1));
        }
        i = i + 1;
    }
    log.violations = kept;
    log.saved_count = saved;
}

/// Of the violations not yet written, the positions of those to write now: a
/// violation of the same kind as the last one written is held back while the
/// repeat cooldown runs.
pub open spec fn spec_to_write(v: Seq<Violation>, saved: int, last: Option<ViolationKind>, cooldown_active: bool, n: int) -> Seq<usize>
    decreases n,
{
    if n <= saved || n <= 0 {
        Seq::empty()
    } else {
        let prev = spec_to_write(v, saved, last, cooldown_active, n - 1);
        if last == Some(v[n - 1].0) && cooldown_active {
            prev
        } else {
            prev.push((n - 1) as usize)
        }
    }
}

pub fn violations_to_write(log: &ViolationLog, cooldown_active: bool) -> (w: Vec<usize>)
    ensures
        w@ == spec_to_write(log.violations@, log.saved_count as int, log.last_saved_violation, cooldown_active, log.violations@.len() as int),
{
    let mut w: Vec<usize> = Vec::new();
    let mut i: usize = log.saved_count;
    if i >= log.violations.len() {
        proof {
            lemma_to_write_empty(log.violations@, log.saved_count as int, log.last_saved_violation, cooldown_active, log.violations@.len() as int);
        }
        return w;
    }
    proof {
        lemma_to_write_empty(log.violations@, log.saved_count as int, log.last_saved_violation, cooldown_active, i as int);
    }
    while i < log.violations.len()
        invariant
            log.saved_count <= i <= log.violations@.len(),
            w@ == spec_to_write(log.violations@, log.saved_count as int, log.last_saved_violation, cooldown_active, i as int),
        decreases log.violations.len() - i,
    {
        let k = log.violations[i].0;
        if !(log.last_saved_violation == Some(k) && cooldown_active) {
            w.push(i);
        }
        i = i + 1;
    }
    w
}

proof fn lemma_to_write_empty(v: Seq<Violation>, saved: int, last: Option<ViolationKind>, c: bool, n: int)
    requires
        n <= saved,
    ensures
        spec_to_write(v, saved, last, c, n) == Seq::<usize>::empty(),
{
}

/// After writing (or finding nothing to write): every violation counts as
/// written, and the kind of the last one written is remembered when there was one.
pub fn mark_saved(log: &mut ViolationLog, last_written: Option<ViolationKind>)
    ensures
        final(log).violations@ == old(log).violations@,
        final(log).saved_count == old(log).violations@.len(),
        final(log).last_saved_violation == (match last_written {
            Some(k) => Some(k),
            None => old(log).last_saved_violation,
        }),
{
    if let Some(k) = last_written {
        log.last_saved_violation = Some(k);
    }
    log.saved_count = log.violations.len();
}

/// The player is reported embedded at the first of its box corners (checked in
/// order) that lies in a solid block, at most once a frame.
pub fn first_embedded_corner(solid: &Vec<bool>) -> (r: Option<usize>)
    ensures
        match r {
            Some(i) => i < solid@.len() && solid@[i as int] && forall|j: int| 0 <= j < i ==> !solid@[j],
            None => forall|j: int| 0 <= j < solid@.len() ==> !solid@[j],
        },
{
    let mut i: usize = 0;
    while i < solid.len()
        invariant
            i <= solid.len(),
            forall|j: int| 0 <= j < i ==> !solid@[j],
        decreases solid.len() - i,
    {
        if solid[i] {
            return Some(i);
        }
        i = i + 1;
    }
    None
}

/// Once everything is marked written, nothing is left to write, with or
/// without the repeat cooldown.
pub proof fn law_nothing_left_after_marking(v: Seq<Violation>, last: Option<ViolationKind>, c: bool)
    ensures
        spec_to_write(v, v.len() as int, last, c, v.len() as int) == Seq::<usize>::empty(),
{
    lemma_to_write_empty(v, v.len() as int, last, c, v.len() as int);
}

} // verus!
