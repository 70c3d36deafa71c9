//! The values that travel between players, the relay and the rules engine.

use vstd::prelude::*;

verus! {

/// A seat within a session. It stays the same for the session's lifetime.
pub type PlayerSlot = u8;

/// How a finished game ended: the winning seat, or `None` for a draw.
pub type Winner = Option<PlayerSlot>;

/// A square of the board, or the anchor of a wall.
#[derive(Clone, Copy, Debug, PartialEq, Eq, Structural, Hash)]
pub struct Position {
    pub x: u8,
    pub y: u8,
}

/// The direction in which a wall runs.
#[derive(Clone, Copy, Debug, PartialEq, Eq, Structural, Hash)]
pub enum Orientation {
    Horizontal,
    Vertical,
}

/// The kind of a wall: `Simple` spans two squares, `Single` is one half of it.
#[derive(Clone, Copy, Debug, PartialEq, Eq, Structural, Hash)]
pub enum WallKind {
    Simple,
    Single,
    Strong,
}

/// A wall on the board: where it is anchored, how it runs and of which kind it is.
#[derive(Clone, Copy, Debug, PartialEq, Eq, Structural, Hash)]
pub struct Wall {
    pub position: Position,
    pub orientation: Orientation,
    pub kind: WallKind,
}

/// What a player asks the rules engine to do.
#[derive(Clone, Copy, Debug, PartialEq, Eq, Structural, Hash)]
pub enum Move {
    MovePawn { from: Position, to: Position },
    PlaceWall { position: Position, orientation: Orientation, kind: WallKind },
}

/// What one step of a session tells its caller: go on, or retire the session.
#[derive(Clone, Copy, Debug, PartialEq, Eq, Structural, Hash)]
pub enum MoveResult {
    Continue,
    Terminated,
}

/// What the relay tells a player.
#[derive(Debug)]
pub enum GameEvent {
    /// The player is bound to a seat; `state` is the engine's snapshot at that moment.
    SessionStart { state: Vec<u8>, player_slot: PlayerSlot },
    /// The engine accepted a move.
    MoveApplied { mv: Move },
    /// The game is over.
    SessionEnd { winner: Winner },
    /// Another player of the session left.
    PeerDisconnected,
}

/// A `GameEvent` as a mathematical value.
pub enum EventView {
    SessionStart { state: Seq<u8>, player_slot: PlayerSlot },
    MoveApplied { mv: Move },
    SessionEnd { winner: Winner },
    PeerDisconnected,
}

impl View for GameEvent {
    type V = EventView;

    open spec fn view(&self) -> EventView {
        match *self {
            GameEvent::SessionStart { state, player_slot } => EventView::SessionStart {
                state: state@,
                player_slot,
            },
            GameEvent::MoveApplied { mv } => EventView::MoveApplied { mv },
            GameEvent::SessionEnd { winner } => EventView::SessionEnd { winner },
            GameEvent::PeerDisconnected => EventView::PeerDisconnected,
        }
    }
}

impl GameEvent {
    /// A second copy of the event, for another receiver.
    pub fn duplicate(&self) -> (copy: GameEvent)
        ensures
            copy@ == self@,
    {
        match self {
            GameEvent::SessionStart { state, player_slot } => {
                let bytes = state.clone();
                assert(bytes@ =~= state@);
                GameEvent::SessionStart { state: bytes, player_slot: *player_slot }
            },
            GameEvent::MoveApplied { mv } => GameEvent::MoveApplied { mv: *mv },
            GameEvent::SessionEnd { winner } => GameEvent::SessionEnd { winner: *winner },
            GameEvent::PeerDisconnected => GameEvent::PeerDisconnected,
        }
    }

    /// Whether two events carry the same data.
    pub fn same_as(&self, other: &GameEvent) -> (same: bool)
        ensures
            same == (self@ == other@),
    {
        match (self, other) {
            (
                GameEvent::SessionStart { state: a, player_slot: p },
                GameEvent::SessionStart { state: b, player_slot: q },
            ) => {
                let eq = bytes_equal(a, b);
                eq && *p == *q
            },
            (GameEvent::MoveApplied { mv: a }, GameEvent::MoveApplied { mv: b }) => *a == *b,
            (GameEvent::SessionEnd { winner: a }, GameEvent::SessionEnd { winner: b }) => {
                match (a, b) {
                    (Some(x), Some(y)) => *x == *y,
                    (None, None) => true,
                    _ => false,
                }
            },
            (GameEvent::PeerDisconnected, GameEvent::PeerDisconnected) => true,
            _ => false,
        }
    }
}

/// Whether two byte strings are equal.
fn bytes_equal(a: &Vec<u8>, b: &Vec<u8>) -> (same: bool)
    ensures
        same == (a@ == b@),
{
    if a.len() != b.len() {
        return false;
    }
    let mut i: usize = 0;
    while i < a.len()
        invariant
            a.len() == b.len(),
            i <= a.len(),
            forall|j: int| 0 <= j < i ==> a@[j] == b@[j],
        decreases a.len() - i,
    {
        if a[i] != b[i] {
            return false;
        }
        i += 1;
    }
    assert(a@ =~= b@);
    true
}

impl Position {
    /// The position with the given coordinates.
    pub fn new(x: u8, y: u8) -> (p: Position)
        ensures
            p == (Position { x, y }),
    {
        Position { x, y }
    }
}

} // verus!
