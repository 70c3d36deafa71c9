//! The pawns of the local mirror of a game: which pawn stands on which
//! square, and whose it is.

use crate::moves::{PlayerSlot, Position};
use bimap::BiHashMap;
use std::collections::hash_map::RandomState;
use vstd::prelude::*;

verus! {

/// `bimap::BiHashMap`, a map that is one-to-one in both directions. The
/// rules engine keeps its pawns in one, from each pawn's number to the
/// square it stands on.
#[verifier::external_type_specification]
#[verifier::external_body]
#[verifier::reject_recursive_types(L)]
#[verifier::reject_recursive_types(R)]
#[verifier::reject_recursive_types(LS)]
#[verifier::reject_recursive_types(RS)]
pub struct ExBiHashMap<L, R, LS, RS>(bimap::BiHashMap<L, R, LS, RS>);

/// The pairs that a table of pawns holds: each pawn's number with the
/// column and the row of its square.
pub uninterp spec fn pawn_squares(pawns: BiHashMap<u8, (u8, u8), RandomState, RandomState>) -> Map<
    u8,
    (u8, u8),
>;

/// The pawn that stands on `square`, if one does.
pub open spec fn pawn_standing(squares: Map<u8, (u8, u8)>, square: Position) -> Option<u8> {
    if exists|pawn: u8| squares.contains_pair(pawn, (square.x, square.y)) {
        Some(choose|pawn: u8| squares.contains_pair(pawn, (square.x, square.y)))
    } else {
        None
    }
}

/// The seat that owns a pawn, in a game of `pawn_count` pawns shared
/// evenly among `player_count` players and numbered player by player;
/// `None` when there are no players, or fewer pawns than players.
pub open spec fn pawn_owner(pawn: u8, pawn_count: u8, player_count: u8) -> Option<PlayerSlot> {
    if player_count == 0 || pawn_count < player_count {
        None
    } else {
        Some((pawn as int / (pawn_count as int / player_count as int)) as PlayerSlot)
    }
}

/// The seat that owns the pawn on `square`; `None` when the square is
/// empty or the pawn has no owner.
pub open spec fn square_owner(
    squares: Map<u8, (u8, u8)>,
    square: Position,
    pawn_count: u8,
    player_count: u8,
) -> Option<PlayerSlot> {
    match pawn_standing(squares, square) {
        Some(pawn) => pawn_owner(pawn, pawn_count, player_count),
        None => None,
    }
}

/// Calls `BiHashMap::get_by_right` with the square as the right value.
/// Not proved: that it returns the one pawn that the table pairs with the
/// square, and `None` when the table pairs no pawn with it. The table
/// holds each right value in one pair at most.
#[verifier::external_body]
fn pawn_on(pawns: &BiHashMap<u8, (u8, u8)>, column: u8, row: u8) -> (found: Option<u8>)
    ensures
        match found {
            Some(pawn) => forall|other: u8|
                pawn_squares(*pawns).contains_pair(other, (column, row)) <==> other == pawn,
            None => forall|other: u8| !pawn_squares(*pawns).contains_pair(other, (column, row)),
        },
{
    pawns.get_by_right(&(column, row)).copied()
}

/// The seat that owns a pawn: pawns are numbered player by player, each
/// player having `pawn_count / player_count` of them.
pub fn owned_by(pawn: u8, pawn_count: u8, player_count: u8) -> (owner: Option<PlayerSlot>)
    ensures
        owner == pawn_owner(pawn, pawn_count, player_count),
{
    if player_count == 0 || pawn_count < player_count {
        None
    } else {
        let each: u8 = pawn_count / player_count;
        assert(each >= 1) by (nonlinear_arith)
            requires
                each == pawn_count as int / player_count as int,
                pawn_count >= player_count,
                player_count > 0,
        ;
        Some(pawn / each)
    }
}

/// The pawn that the table has on `square`, if any.
pub fn pawn_at(pawns: &BiHashMap<u8, (u8, u8)>, square: Position) -> (found: Option<u8>)
    ensures
        found == pawn_standing(pawn_squares(*pawns), square),
{
    let found = pawn_on(pawns, square.x, square.y);
    proof {
        let squares = pawn_squares(*pawns);
        match found {
            Some(pawn) => {
                assert(squares.contains_pair(pawn, (square.x, square.y)));
            },
            None => {},
        }
    }
    found
}

/// The seat that owns the pawn which the table has on `square`.
pub fn occupant_of(
    pawns: &BiHashMap<u8, (u8, u8)>,
    square: Position,
    pawn_count: u8,
    player_count: u8,
) -> (owner: Option<PlayerSlot>)
    ensures
        owner == square_owner(pawn_squares(*pawns), square, pawn_count, player_count),
{
    match pawn_at(pawns, square) {
        Some(pawn) => owned_by(pawn, pawn_count, player_count),
        None => None,
    }
}

} // verus!
