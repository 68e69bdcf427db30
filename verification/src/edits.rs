//! Changes to the block world and the events that report them.

use vstd::prelude::*;
use crate::geometry::Pos;
use crate::items::BlockType;

verus! {

/// Who caused a change to the world: the local player's entity, or the game
/// itself when there is no player.
#[derive(Clone, Copy, Debug, PartialEq, Eq, Structural)]
pub enum EventSource {
    Player(u64),
    System,
}

pub open spec fn spec_source_of(player: Option<u64>) -> EventSource {
    match player {
        Some(e) => EventSource::Player(e),
        None => EventSource::System,
    }
}

/// The source of an event caused by the local player, if there is one.
pub fn source_of(player: Option<u64>) -> (s: EventSource)
    ensures
        s == spec_source_of(player),
{
    match player {
        Some(e) => EventSource::Player(e),
        None => EventSource::System,
    }
}

/// One block of the world set (`Some`) or removed (`None`). The chunk that
/// holds `pos` is marked dirty at `pos`, so its mesh is built again; no other
/// position changes.
#[derive(Clone, Copy, Debug, PartialEq, Eq, Structural)]
pub struct WorldEdit {
    pub pos: Pos,
    pub block: Option<BlockType>,
}

/// A world block broken or placed, as reported to the rest of the game.
#[derive(Clone, Copy, Debug, PartialEq, Eq, Structural)]
pub struct BlockEvent {
    pub pos: Pos,
    pub block: BlockType,
    pub source: EventSource,
}

} // verus!
