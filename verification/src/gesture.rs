//! From pointer input to moves: where on the board a pointer landed, and
//! what a press and a release there mean.

use crate::moves::{Move, Orientation, PlayerSlot, Position, Wall, WallKind};
use vstd::prelude::*;

verus! {

/// The highest index of a square along one side of the board.
pub const LAST_SQUARE: u8 = 8;

/// The highest index of a wall junction along one side of the board.
pub const LAST_JUNCTION: u8 = 9;

/// What a pointer landed on.
#[derive(Clone, Copy, Debug, PartialEq, Eq, Structural)]
pub enum Hit {
    /// A square, where a pawn can stand.
    Cell(Position),
    /// A junction of the wall grid: a whole wall can be placed here at once.
    WallSlot(Position),
    /// A strip of the wall grid beside a square: one half of a wall, of kind `Single`.
    WallEdge(Wall),
}

/// The board's grid in the units of the caller's coordinates. Along each
/// axis the board repeats a strip for walls and, after it, a square,
/// starting at coordinate 0 in the top left corner.
pub struct Grid {
    wall: u32,
    spot: u32,
}

/// The hit at the point `(x, y)` of a grid whose wall strips are `wall`
/// wide and whose squares are `spot` wide. On each axis a point is within
/// a square's span when its offset from the start of the strip before the
/// square is greater than `wall`, and within the strip otherwise. A point
/// within a square's span on both axes is on that cell; within a wall
/// strip on both axes, on a junction; within a square's span on one axis
/// only, on a half wall: a horizontal one where it is the horizontal
/// axis, a vertical one otherwise. Rows are counted from the top here and
/// from the bottom on the board. A point outside the board hits nothing.
pub open spec fn grid_hit(wall: nat, spot: nat, x: nat, y: nat) -> Option<Hit> {
    let unit = wall + spot;
    let column = x / unit;
    let row = y / unit;
    let in_x = x % unit > wall;
    let in_y = y % unit > wall;
    if in_x && in_y {
        if column <= LAST_SQUARE && row <= LAST_SQUARE {
            Some(Hit::Cell(Position { x: column as u8, y: (LAST_SQUARE - row) as u8 }))
        } else {
            None
        }
    } else if !in_x && !in_y {
        if column <= LAST_JUNCTION && row <= LAST_JUNCTION {
            Some(Hit::WallSlot(Position { x: column as u8, y: (LAST_JUNCTION - row) as u8 }))
        } else {
            None
        }
    } else if in_x {
        if column <= LAST_SQUARE && row <= LAST_JUNCTION {
            Some(
                Hit::WallEdge(
                    Wall {
                        position: Position { x: column as u8, y: (LAST_JUNCTION - row) as u8 },
                        orientation: Orientation::Horizontal,
                        kind: WallKind::Single,
                    },
                ),
            )
        } else {
            None
        }
    } else {
        if column <= LAST_JUNCTION && row <= LAST_SQUARE {
            Some(
                Hit::WallEdge(
                    Wall {
                        position: Position { x: column as u8, y: (LAST_SQUARE - row) as u8 },
                        orientation: Orientation::Vertical,
                        kind: WallKind::Single,
                    },
                ),
            )
        } else {
            None
        }
    }
}

impl Grid {
    #[verifier::type_invariant]
    spec fn measured(&self) -> bool {
        self.spot > 0 && self.wall + self.spot <= u32::MAX
    }

    /// The width of a wall strip.
    pub closed spec fn wall_width(&self) -> nat {
        self.wall as nat
    }

    /// The width of a square.
    pub closed spec fn spot_width(&self) -> nat {
        self.spot as nat
    }

    /// A grid with wall strips `wall` wide and squares `spot` wide; `None`
    /// when a square would have no width or the two widths together do
    /// not fit a coordinate.
    pub fn new(wall: u32, spot: u32) -> (grid: Option<Grid>)
        ensures
            grid is Some <==> spot > 0 && wall + spot <= u32::MAX,
            grid matches Some(g) ==> g.wall_width() == wall && g.spot_width() == spot,
    {
        if spot > 0 && wall <= u32::MAX - spot {
            Some(Grid { wall, spot })
        } else {
            None
        }
    }

    /// The grid in which a wall strip is 2 wide and a square 5, so that
    /// the whole board, ten strips and nine squares, is 65 wide.
    pub fn standard() -> (grid: Grid)
        ensures
            grid.wall_width() == 2,
            grid.spot_width() == 5,
    {
        Grid { wall: 2, spot: 5 }
    }

    /// What the point `(x, y)` lands on.
    pub fn locate(&self, x: u32, y: u32) -> (hit: Option<Hit>)
        ensures
            hit == grid_hit(self.wall_width(), self.spot_width(), x as nat, y as nat),
    {
        proof {
            use_type_invariant(self);
        }
        let unit = self.wall + self.spot;
        let column = x / unit;
        let row = y / unit;
        let in_x = x % unit > self.wall;
        let in_y = y % unit > self.wall;
        if in_x && in_y {
            if column <= 8 && row <= 8 {
                Some(Hit::Cell(Position { x: column as u8, y: 8 - row as u8 }))
            } else {
                None
            }
        } else if !in_x && !in_y {
            if column <= 9 && row <= 9 {
                Some(Hit::WallSlot(Position { x: column as u8, y: 9 - row as u8 }))
            } else {
                None
            }
        } else if in_x {
            if column <= 8 && row <= 9 {
                Some(
                    Hit::WallEdge(
                        Wall {
                            position: Position { x: column as u8, y: 9 - row as u8 },
                            orientation: Orientation::Horizontal,
                            kind: WallKind::Single,
                        },
                    ),
                )
            } else {
                None
            }
        } else {
            if column <= 9 && row <= 8 {
                Some(
                    Hit::WallEdge(
                        Wall {
                            position: Position { x: column as u8, y: 8 - row as u8 },
                            orientation: Orientation::Vertical,
                            kind: WallKind::Single,
                        },
                    ),
                )
            } else {
                None
            }
        }
    }
}

/// What the game looks like to the local player at the moment of a press.
#[derive(Clone, Copy, Debug, PartialEq, Eq, Structural)]
pub struct PointerContext {
    /// The seat of the local player.
    pub side: PlayerSlot,
    /// The seat whose turn it is.
    pub turn: PlayerSlot,
    /// The owner of the pawn on the square that was hit, if one stands there.
    pub occupant: Option<PlayerSlot>,
    /// The orientation that the input's modifier selects for a wall
    /// placed at once; `None` for input that has no modifier.
    pub modifier: Option<Orientation>,
}

/// The orientation that a pointer's button selects for a wall placed at
/// once: a mouse's main button places it upright, any other button of a
/// mouse lays it flat, and a pointer that is no mouse selects none.
pub open spec fn button_modifier(mouse: bool, button: i16) -> Option<Orientation> {
    if !mouse {
        None
    } else if button == 0 {
        Some(Orientation::Vertical)
    } else {
        Some(Orientation::Horizontal)
    }
}

/// The orientation that a pointer's button selects.
pub fn modifier_of(mouse: bool, button: i16) -> (modifier: Option<Orientation>)
    ensures
        modifier == button_modifier(mouse, button),
{
    if !mouse {
        None
    } else if button == 0 {
        Some(Orientation::Vertical)
    } else {
        Some(Orientation::Horizontal)
    }
}

/// What the player has begun and not finished: a pawn picked up, or the
/// first half of a wall.
#[derive(Clone, Copy, Debug, PartialEq, Eq, Structural)]
pub struct Gesture {
    /// The square of the selected pawn.
    pub selected: Option<Position>,
    /// The half wall on which the pointer went down.
    pub half_wall: Option<Wall>,
}

/// The distance between two coordinates.
pub open spec fn gap(a: u8, b: u8) -> int {
    if a >= b {
        a - b
    } else {
        b - a
    }
}

/// The larger of two coordinates.
pub open spec fn larger(a: u8, b: u8) -> u8 {
    if a >= b {
        a
    } else {
        b
    }
}

/// Whether two half walls make a whole one: they run the same way and
/// their anchors are neighbours on the grid.
pub open spec fn halves_match(first: Wall, second: Wall) -> bool {
    first.orientation == second.orientation && gap(first.position.x, second.position.x) + gap(
        first.position.y,
        second.position.y,
    ) == 1
}

/// The whole wall that two matching half walls make.
pub open spec fn joined_wall(first: Wall, second: Wall) -> Move {
    Move::PlaceWall {
        position: Position {
            x: larger(first.position.x, second.position.x),
            y: larger(first.position.y, second.position.y),
        },
        orientation: first.orientation,
        kind: WallKind::Simple,
    }
}

/// The gesture after the pointer went down on `hit`.
///
/// On a square: with nothing selected, a pawn of the local player is
/// selected; with a pawn selected, the selection ends. On a half wall:
/// it is remembered. Anything else leaves the gesture as it was.
pub open spec fn after_press(
    gesture: Gesture,
    hit: Option<Hit>,
    context: PointerContext,
) -> Gesture {
    match hit {
        Some(Hit::Cell(position)) => match gesture.selected {
            None => if context.occupant == Some(context.side) {
                Gesture { selected: Some(position), ..gesture }
            } else {
                gesture
            },
            Some(_) => Gesture { selected: None, ..gesture },
        },
        Some(Hit::WallEdge(wall)) => Gesture { half_wall: Some(wall), ..gesture },
        _ => gesture,
    }
}

/// The move that the press sends.
///
/// On a square, with a pawn selected: the pawn's move to that square, if
/// it is another square, no pawn of another player stands on it and it
/// is the local player's turn. On a junction: a whole wall there, in the
/// orientation that the modifier selects, if it is the local player's
/// turn. Anything else sends nothing.
pub open spec fn press_move(gesture: Gesture, hit: Option<Hit>, context: PointerContext) -> Option<
    Move,
> {
    match hit {
        Some(Hit::Cell(position)) => match gesture.selected {
            Some(selected) => if position != selected && (context.occupant is None
                || context.occupant == Some(context.side)) && context.turn == context.side {
                Some(Move::MovePawn { from: selected, to: position })
            } else {
                None
            },
            None => None,
        },
        Some(Hit::WallSlot(position)) => match context.modifier {
            Some(orientation) => if context.turn == context.side {
                Some(Move::PlaceWall { position, orientation, kind: WallKind::Simple })
            } else {
                None
            },
            None => None,
        },
        _ => None,
    }
}

/// The gesture after the pointer went up: a remembered half wall is
/// forgotten, wherever the pointer went up.
pub open spec fn after_release(gesture: Gesture) -> Gesture {
    Gesture { half_wall: None, ..gesture }
}

/// The move that the release sends: the whole wall, if the pointer went
/// down on a half wall and up on one that matches it. Anything else
/// sends nothing.
pub open spec fn release_move(gesture: Gesture, hit: Option<Hit>) -> Option<Move> {
    match (gesture.half_wall, hit) {
        (Some(first), Some(Hit::WallEdge(second))) => if halves_match(first, second) {
            Some(joined_wall(first, second))
        } else {
            None
        },
        _ => None,
    }
}

impl Gesture {
    /// The state in which nothing has been begun.
    pub fn new() -> (gesture: Gesture)
        ensures
            gesture == (Gesture { selected: None, half_wall: None }),
    {
        Gesture { selected: None, half_wall: None }
    }

    /// The pointer went down on `hit`. Returns the move to send, if the
    /// press completes one.
    pub fn pointer_down(&mut self, hit: Option<Hit>, context: &PointerContext) -> (sent: Option<
        Move,
    >)
        ensures
            *final(self) == after_press(*old(self), hit, *context),
            sent == press_move(*old(self), hit, *context),
    {
        match hit {
            Some(Hit::Cell(position)) => {
                match self.selected {
                    None => {
                        if is_slot(context.occupant, context.side) {
                            self.selected = Some(position);
                        }
                        None
                    },
                    Some(selected) => {
                        self.selected = None;
                        let free = match context.occupant {
                            None => true,
                            Some(owner) => owner == context.side,
                        };
                        if position != selected && free && context.turn == context.side {
                            Some(Move::MovePawn { from: selected, to: position })
                        } else {
                            None
                        }
                    },
                }
            },
            Some(Hit::WallSlot(position)) => {
                match context.modifier {
                    Some(orientation) => {
                        if context.turn == context.side {
                            Some(Move::PlaceWall { position, orientation, kind: WallKind::Simple })
                        } else {
                            None
                        }
                    },
                    None => None,
                }
            },
            Some(Hit::WallEdge(wall)) => {
                self.half_wall = Some(wall);
                None
            },
            None => None,
        }
    }

    /// The pointer went up on `hit`. Returns the move to send, if the
    /// release completes one.
    pub fn pointer_up(&mut self, hit: Option<Hit>) -> (sent: Option<Move>)
        ensures
            *final(self) == after_release(*old(self)),
            sent == release_move(*old(self), hit),
    {
        let begun = self.half_wall;
        self.half_wall = None;
        match (begun, hit) {
            (Some(first), Some(Hit::WallEdge(second))) => {
                let (x1, y1) = (first.position.x, first.position.y);
                let (x2, y2) = (second.position.x, second.position.y);
                let dx: u16 = if x1 >= x2 {
                    (x1 - x2) as u16
                } else {
                    (x2 - x1) as u16
                };
                let dy: u16 = if y1 >= y2 {
                    (y1 - y2) as u16
                } else {
                    (y2 - y1) as u16
                };
                if first.orientation == second.orientation && dx + dy == 1 {
                    Some(
                        Move::PlaceWall {
                            position: Position {
                                x: if x1 >= x2 {
                                    x1
                                } else {
                                    x2
                                },
                                y: if y1 >= y2 {
                                    y1
                                } else {
                                    y2
                                },
                            },
                            orientation: first.orientation,
                            kind: WallKind::Simple,
                        },
                    )
                } else {
                    None
                }
            },
            _ => None,
        }
    }
}

/// Whether `owner` is the seat `slot`.
fn is_slot(owner: Option<PlayerSlot>, slot: PlayerSlot) -> (same: bool)
    ensures
        same == (owner == Some(slot)),
{
    match owner {
        Some(found) => found == slot,
        None => false,
    }
}

/// A press on a half wall and a release on a second one send exactly one
/// move when the two run the same way and their anchors are neighbours
/// on the grid: the whole wall of kind `Simple`, in their orientation, at
/// the larger of the two anchors on each axis. When they run different
/// ways, or their anchors are not neighbours, they send none. Whatever
/// was begun before, and whoever's turn it is: the press itself sends
/// nothing, and after the release the half wall is forgotten, so that no
/// later release sends the wall again.
pub proof fn law_two_half_walls_place_one_wall(
    gesture: Gesture,
    context: PointerContext,
    first: Wall,
    second: Wall,
)
    ensures
        ({
            let pressed = after_press(gesture, Some(Hit::WallEdge(first)), context);
            let released = after_release(pressed);
            let sent = release_move(pressed, Some(Hit::WallEdge(second)));
            &&& press_move(gesture, Some(Hit::WallEdge(first)), context) is None
            &&& halves_match(first, second) ==> sent == Some(
                Move::PlaceWall {
                    position: Position {
                        x: larger(first.position.x, second.position.x),
                        y: larger(first.position.y, second.position.y),
                    },
                    orientation: first.orientation,
                    kind: WallKind::Simple,
                },
            )
            &&& !halves_match(first, second) ==> sent is None
            &&& forall|hit: Option<Hit>| release_move(released, hit) is None
        }),
{
}

} // verus!
