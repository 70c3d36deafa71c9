//! The binary frames that carry moves to the relay and events to the players.
//!
//! A frame holds one value. It starts with the version of the encoding and
//! the rulebook of the session, so that a frame written under one rulebook is
//! not read under another.

use crate::moves::{EventView, GameEvent, Move, Orientation, Position, WallKind};
use crate::rulebook::{rulebook_tag, Rulebook};
use vstd::prelude::*;

verus! {

/// The version of the encoding, the first byte of every frame.
pub const WIRE_VERSION: u8 = 1;

/// The byte that stands for an orientation.
pub open spec fn orientation_tag(orientation: Orientation) -> u8 {
    match orientation {
        Orientation::Horizontal => 0,
        Orientation::Vertical => 1,
    }
}

/// The byte that stands for a kind of wall.
pub open spec fn kind_tag(kind: WallKind) -> u8 {
    match kind {
        WallKind::Simple => 0,
        WallKind::Single => 1,
        WallKind::Strong => 2,
    }
}

/// The two bytes in front of every frame of a session under `rulebook`.
pub open spec fn frame_header(rulebook: Rulebook) -> Seq<u8> {
    seq![WIRE_VERSION, rulebook_tag(rulebook)]
}

/// A move as five bytes: the variant, then its fields.
pub open spec fn move_body(mv: Move) -> Seq<u8> {
    match mv {
        Move::MovePawn { from, to } => seq![0u8, from.x, from.y, to.x, to.y],
        Move::PlaceWall { position, orientation, kind } => seq![
            1u8,
            position.x,
            position.y,
            orientation_tag(orientation),
            kind_tag(kind),
        ],
    }
}

/// The frame that carries `mv` in a session under `rulebook`.
pub open spec fn move_frame(rulebook: Rulebook, mv: Move) -> Seq<u8> {
    frame_header(rulebook) + move_body(mv)
}

/// An event as bytes: the variant, then its fields. The engine's snapshot in
/// `SessionStart` runs to the end of the frame.
pub open spec fn event_body(event: EventView) -> Seq<u8> {
    match event {
        EventView::SessionStart { state, player_slot } => seq![0u8, player_slot] + state,
        EventView::MoveApplied { mv } => seq![1u8] + move_body(mv),
        EventView::SessionEnd { winner } => match winner {
            None => seq![2u8, 0u8],
            Some(slot) => seq![2u8, 1u8, slot],
        },
        EventView::PeerDisconnected => seq![3u8],
    }
}

/// The frame that carries `event` in a session under `rulebook`.
pub open spec fn event_frame(rulebook: Rulebook, event: EventView) -> Seq<u8> {
    frame_header(rulebook) + event_body(event)
}

/// The move that `bytes` carry under `rulebook`: the one whose frame they
/// are, or `None` when they are no move's frame.
pub open spec fn framed_move(rulebook: Rulebook, bytes: Seq<u8>) -> Option<Move> {
    if exists|mv: Move| move_frame(rulebook, mv) == bytes {
        Some(choose|mv: Move| move_frame(rulebook, mv) == bytes)
    } else {
        None
    }
}

/// The event that `bytes` carry under `rulebook`: the one whose frame they
/// are, or `None` when they are no event's frame.
pub open spec fn framed_event(rulebook: Rulebook, bytes: Seq<u8>) -> Option<EventView> {
    if exists|event: EventView| event_frame(rulebook, event) == bytes {
        Some(choose|event: EventView| event_frame(rulebook, event) == bytes)
    } else {
        None
    }
}

/// The orientation that a byte stands for, if any.
fn orientation_of(tag: u8) -> (found: Option<Orientation>)
    ensures
        match found {
            Some(orientation) => orientation_tag(orientation) == tag,
            None => forall|orientation: Orientation| orientation_tag(orientation) != tag,
        },
{
    if tag == 0 {
        Some(Orientation::Horizontal)
    } else if tag == 1 {
        Some(Orientation::Vertical)
    } else {
        None
    }
}

/// The kind of wall that a byte stands for, if any.
fn kind_of(tag: u8) -> (found: Option<WallKind>)
    ensures
        match found {
            Some(kind) => kind_tag(kind) == tag,
            None => forall|kind: WallKind| kind_tag(kind) != tag,
        },
{
    if tag == 0 {
        Some(WallKind::Simple)
    } else if tag == 1 {
        Some(WallKind::Single)
    } else if tag == 2 {
        Some(WallKind::Strong)
    } else {
        None
    }
}

/// Appends the body of `mv` to `frame`.
fn push_move_body(frame: &mut Vec<u8>, mv: &Move)
    ensures
        final(frame)@ == old(frame)@ + move_body(*mv),
{
    match mv {
        Move::MovePawn { from, to } => {
            frame.push(0);
            frame.push(from.x);
            frame.push(from.y);
            frame.push(to.x);
            frame.push(to.y);
        },
        Move::PlaceWall { position, orientation, kind } => {
            let o: u8 = match orientation {
                Orientation::Horizontal => 0,
                Orientation::Vertical => 1,
            };
            let k: u8 = match kind {
                WallKind::Simple => 0,
                WallKind::Single => 1,
                WallKind::Strong => 2,
            };
            frame.push(1);
            frame.push(position.x);
            frame.push(position.y);
            frame.push(o);
            frame.push(k);
        },
    }
    assert(frame@ =~= old(frame)@ + move_body(*mv));
}

/// Reads the body of a move from the five bytes of `bytes` that start at `at`.
fn read_move_body(bytes: &[u8], at: usize) -> (found: Option<Move>)
    requires
        at + 5 <= bytes@.len(),
    ensures
        match found {
            Some(mv) => move_body(mv) == bytes@.subrange(at as int, at + 5),
            None => forall|mv: Move| move_body(mv) != bytes@.subrange(at as int, at + 5),
        },
{
    let ghost body = bytes@.subrange(at as int, at + 5);
    let tag = bytes[at];
    let a = bytes[at + 1];
    let b = bytes[at + 2];
    let c = bytes[at + 3];
    let d = bytes[at + 4];
    assert(body[0] == tag && body[1] == a && body[2] == b && body[3] == c && body[4] == d);
    if tag == 0 {
        let mv = Move::MovePawn { from: Position { x: a, y: b }, to: Position { x: c, y: d } };
        assert(move_body(mv) =~= body);
        Some(mv)
    } else if tag == 1 {
        match (orientation_of(c), kind_of(d)) {
            (Some(orientation), Some(kind)) => {
                let mv = Move::PlaceWall { position: Position { x: a, y: b }, orientation, kind };
                assert(move_body(mv) =~= body);
                Some(mv)
            },
            _ => {
                assert forall|mv: Move| move_body(mv) != body by {
                    lemma_move_body_bytes(mv);
                }
                None
            },
        }
    } else {
        assert forall|mv: Move| move_body(mv) != body by {
            lemma_move_body_bytes(mv);
        }
        None
    }
}

/// Whether `bytes` start with the header of a frame under `rulebook`.
fn has_header(rulebook: Rulebook, bytes: &[u8]) -> (ok: bool)
    ensures
        ok == (bytes@.len() >= 2 && bytes@.subrange(0, 2) == frame_header(rulebook)),
{
    if bytes.len() < 2 {
        return false;
    }
    let ok = bytes[0] == WIRE_VERSION && bytes[1] == rulebook.tag();
    proof {
        let head = bytes@.subrange(0, 2);
        assert(head[0] == bytes@[0] && head[1] == bytes@[1]);
        if ok {
            assert(head =~= frame_header(rulebook));
        } else {
            assert(frame_header(rulebook)[0] == WIRE_VERSION);
            assert(frame_header(rulebook)[1] == rulebook_tag(rulebook));
        }
    }
    ok
}

/// Writes the frame that carries `mv` in a session under `rulebook`.
pub fn encode_move(rulebook: Rulebook, mv: &Move) -> (frame: Vec<u8>)
    ensures
        frame@ == move_frame(rulebook, *mv),
{
    let mut frame: Vec<u8> = Vec::new();
    frame.push(WIRE_VERSION);
    frame.push(rulebook.tag());
    assert(frame@ =~= frame_header(rulebook));
    push_move_body(&mut frame, mv);
    frame
}

/// Reads a frame as a move of a session under `rulebook`. The result is the
/// move whose frame `bytes` are; any other bytes give `None`.
pub fn decode_move(rulebook: Rulebook, bytes: &[u8]) -> (found: Option<Move>)
    ensures
        found == framed_move(rulebook, bytes@),
        found matches Some(mv) ==> bytes@ == move_frame(rulebook, mv),
        found is None ==> forall|mv: Move| move_frame(rulebook, mv) != bytes@,
{
    if bytes.len() != 7 || !has_header(rulebook, bytes) {
        assert forall|mv: Move| move_frame(rulebook, mv) != bytes@ by {
            lemma_move_body_bytes(mv);
            let frame = move_frame(rulebook, mv);
            if frame == bytes@ {
                assert(frame.subrange(0, 2) =~= frame_header(rulebook));
            }
        }
        return None;
    }
    match read_move_body(bytes, 2) {
        Some(mv) => {
            proof {
                assert(bytes@ =~= bytes@.subrange(0, 2) + bytes@.subrange(2, 7));
                assert(bytes@ == move_frame(rulebook, mv));
                let chosen = choose|other: Move| move_frame(rulebook, other) == bytes@;
                lemma_move_frame_injective(rulebook, chosen, mv);
            }
            Some(mv)
        },
        None => {
            assert forall|mv: Move| move_frame(rulebook, mv) != bytes@ by {
                lemma_move_body_bytes(mv);
                let frame = move_frame(rulebook, mv);
                if frame == bytes@ {
                    assert(frame.subrange(2, 7) =~= move_body(mv));
                }
            }
            None
        },
    }
}

/// Writes the frame that carries `event` in a session under `rulebook`.
pub fn encode_event(rulebook: Rulebook, event: &GameEvent) -> (frame: Vec<u8>)
    ensures
        frame@ == event_frame(rulebook, event@),
{
    let mut frame: Vec<u8> = Vec::new();
    frame.push(WIRE_VERSION);
    frame.push(rulebook.tag());
    assert(frame@ =~= frame_header(rulebook));
    match event {
        GameEvent::SessionStart { state, player_slot } => {
            frame.push(0);
            frame.push(*player_slot);
            let mut i: usize = 0;
            while i < state.len()
                invariant
                    i <= state.len(),
                    frame@ == frame_header(rulebook) + seq![0u8, *player_slot] + state@.subrange(
                        0,
                        i as int,
                    ),
                decreases state.len() - i,
            {
                frame.push(state[i]);
                i += 1;
                assert(frame@ =~= frame_header(rulebook) + seq![0u8, *player_slot]
                    + state@.subrange(0, i as int));
            }
            assert(state@.subrange(0, i as int) =~= state@);
            assert(frame@ =~= event_frame(rulebook, event@));
        },
        GameEvent::MoveApplied { mv } => {
            frame.push(1);
            push_move_body(&mut frame, mv);
            assert(frame@ =~= event_frame(rulebook, event@));
        },
        GameEvent::SessionEnd { winner } => {
            frame.push(2);
            match winner {
                None => {
                    frame.push(0);
                },
                Some(slot) => {
                    frame.push(1);
                    frame.push(*slot);
                },
            }
            assert(frame@ =~= event_frame(rulebook, event@));
        },
        GameEvent::PeerDisconnected => {
            frame.push(3);
            assert(frame@ =~= event_frame(rulebook, event@));
        },
    }
    frame
}

/// Reads a frame as an event of a session under `rulebook`. The result is
/// the event whose frame `bytes` are; any other bytes give `None`.
pub fn decode_event(rulebook: Rulebook, bytes: &[u8]) -> (found: Option<GameEvent>)
    ensures
        match found {
            Some(event) => framed_event(rulebook, bytes@) == Some(event@) && bytes@ == event_frame(
                rulebook,
                event@,
            ),
            None => framed_event(rulebook, bytes@) is None,
        },
{
    if bytes.len() < 3 || !has_header(rulebook, bytes) {
        assert forall|event: EventView| event_frame(rulebook, event) != bytes@ by {
            lemma_event_body_bytes(event);
            let frame = event_frame(rulebook, event);
            if frame == bytes@ {
                assert(frame.subrange(0, 2) =~= frame_header(rulebook));
            }
        }
        return None;
    }
    let n = bytes.len();
    let ghost body = bytes@.subrange(2, n as int);
    assert(bytes@ =~= frame_header(rulebook) + body);
    let tag = bytes[2];
    assert(body[0] == tag);
    let mut found: Option<GameEvent> = None;
    if tag == 0 {
        if n >= 4 {
            let player_slot = bytes[3];
            let mut state: Vec<u8> = Vec::new();
            let mut i: usize = 4;
            while i < n
                invariant
                    4 <= i <= n,
                    n == bytes@.len(),
                    state@ == bytes@.subrange(4, i as int),
                decreases n - i,
            {
                state.push(bytes[i]);
                i += 1;
                assert(state@ =~= bytes@.subrange(4, i as int));
            }
            let event = GameEvent::SessionStart { state, player_slot };
            assert(event_body(event@) =~= body);
            found = Some(event);
        }
    } else if tag == 1 {
        if n == 8 {
            match read_move_body(bytes, 3) {
                Some(mv) => {
                    let event = GameEvent::MoveApplied { mv };
                    assert(event_body(event@) =~= body);
                    found = Some(event);
                },
                None => {
                    assert forall|event: EventView| event_body(event) != body by {
                        lemma_event_body_bytes(event);
                        if let EventView::MoveApplied { mv } = event {
                            assert(event_body(event).subrange(1, 6) =~= move_body(mv));
                            assert(body.subrange(1, 6) =~= bytes@.subrange(3, 8));
                        }
                    }
                },
            }
        }
    } else if tag == 2 {
        if n == 4 && bytes[3] == 0 {
            let event = GameEvent::SessionEnd { winner: None };
            assert(event_body(event@) =~= body);
            found = Some(event);
        } else if n == 5 && bytes[3] == 1 {
            let event = GameEvent::SessionEnd { winner: Some(bytes[4]) };
            assert(event_body(event@) =~= body);
            found = Some(event);
        }
    } else if tag == 3 {
        if n == 3 {
            let event = GameEvent::PeerDisconnected;
            assert(event_body(event@) =~= body);
            found = Some(event);
        }
    }
    proof {
        match &found {
            Some(event) => {
                assert(bytes@ == event_frame(rulebook, event@));
                let chosen = choose|other: EventView| event_frame(rulebook, other) == bytes@;
                lemma_event_frame_injective(rulebook, chosen, event@);
            },
            None => {
                assert forall|event: EventView| event_frame(rulebook, event) != bytes@ by {
                    lemma_event_body_bytes(event);
                    if event_frame(rulebook, event) == bytes@ {
                        assert(event_frame(rulebook, event).subrange(2, n as int) =~= event_body(
                            event,
                        ));
                        assert(event_body(event) == body);
                        assert(body[1] == bytes@[3]);
                        if n > 4 {
                            assert(body[2] == bytes@[4]);
                        }
                    }
                }
            },
        }
    }
    found
}

/// The bytes of a move's body, one by one.
pub proof fn lemma_move_body_bytes(mv: Move)
    ensures
        move_body(mv).len() == 5,
        mv matches Move::MovePawn { from, to } ==> {
            &&& move_body(mv)[0] == 0
            &&& move_body(mv)[1] == from.x
            &&& move_body(mv)[2] == from.y
            &&& move_body(mv)[3] == to.x
            &&& move_body(mv)[4] == to.y
        },
        mv matches Move::PlaceWall { position, orientation, kind } ==> {
            &&& move_body(mv)[0] == 1
            &&& move_body(mv)[1] == position.x
            &&& move_body(mv)[2] == position.y
            &&& move_body(mv)[3] == orientation_tag(orientation)
            &&& move_body(mv)[4] == kind_tag(kind)
        },
{
}

/// Two moves with the same body are the same move.
pub proof fn lemma_move_body_injective(a: Move, b: Move)
    requires
        move_body(a) == move_body(b),
    ensures
        a == b,
{
    lemma_move_body_bytes(a);
    lemma_move_body_bytes(b);
    let s = move_body(a);
    assert(s[0] == move_body(b)[0]);
    assert(s[1] == move_body(b)[1]);
    assert(s[2] == move_body(b)[2]);
    assert(s[3] == move_body(b)[3]);
    assert(s[4] == move_body(b)[4]);
}

/// Two moves with the same frame under one rulebook are the same move.
pub proof fn lemma_move_frame_injective(rulebook: Rulebook, a: Move, b: Move)
    requires
        move_frame(rulebook, a) == move_frame(rulebook, b),
    ensures
        a == b,
{
    assert(move_body(a) =~= move_frame(rulebook, a).subrange(2, 7)) by {
        lemma_move_body_bytes(a);
    }
    assert(move_body(b) =~= move_frame(rulebook, b).subrange(2, 7)) by {
        lemma_move_body_bytes(b);
    }
    lemma_move_body_injective(a, b);
}

/// Decoding undoes encoding: the frame of a move carries that move, for
/// every move and under every rulebook.
pub proof fn law_move_round_trip(rulebook: Rulebook, mv: Move)
    ensures
        framed_move(rulebook, move_frame(rulebook, mv)) == Some(mv),
{
    let bytes = move_frame(rulebook, mv);
    let found = choose|other: Move| move_frame(rulebook, other) == bytes;
    lemma_move_frame_injective(rulebook, found, mv);
}

/// A frame written under one rulebook carries no move under the other.
pub proof fn law_move_frame_scoped(written: Rulebook, read: Rulebook, mv: Move)
    requires
        written != read,
    ensures
        framed_move(read, move_frame(written, mv)) is None,
{
    let bytes = move_frame(written, mv);
    assert forall|other: Move| move_frame(read, other) != bytes by {
        assert(move_frame(read, other)[1] == rulebook_tag(read));
        assert(bytes[1] == rulebook_tag(written));
    }
}

/// The bytes of an event's body: its length, its variant and its fields.
pub proof fn lemma_event_body_bytes(event: EventView)
    ensures
        event_body(event).len() >= 1,
        event matches EventView::SessionStart { state, player_slot } ==> {
            &&& event_body(event).len() == 2 + state.len()
            &&& event_body(event)[0] == 0
            &&& event_body(event)[1] == player_slot
            &&& event_body(event).subrange(2, 2 + state.len() as int) == state
        },
        event matches EventView::MoveApplied { mv } ==> {
            &&& event_body(event).len() == 6
            &&& event_body(event)[0] == 1
            &&& event_body(event).subrange(1, 6) == move_body(mv)
        },
        event matches EventView::SessionEnd { winner } ==> {
            &&& event_body(event)[0] == 2
            &&& winner is None ==> event_body(event).len() == 2 && event_body(event)[1] == 0
            &&& winner matches Some(slot) ==> event_body(event).len() == 3 && event_body(event)[1]
                == 1 && event_body(event)[2] == slot
        },
        event is PeerDisconnected ==> event_body(event).len() == 1 && event_body(event)[0] == 3,
{
    match event {
        EventView::SessionStart { state, player_slot } => {
            assert(event_body(event).subrange(2, 2 + state.len() as int) =~= state);
        },
        EventView::MoveApplied { mv } => {
            lemma_move_body_bytes(mv);
            assert(event_body(event).subrange(1, 6) =~= move_body(mv));
        },
        _ => {},
    }
}

/// Two events with the same body are the same event.
pub proof fn lemma_event_body_injective(a: EventView, b: EventView)
    requires
        event_body(a) == event_body(b),
    ensures
        a == b,
{
    lemma_event_body_bytes(a);
    lemma_event_body_bytes(b);
    match (a, b) {
        (EventView::MoveApplied { mv: x }, EventView::MoveApplied { mv: y }) => {
            lemma_move_body_injective(x, y);
        },
        _ => {},
    }
}

/// Two events with the same frame under one rulebook are the same event.
pub proof fn lemma_event_frame_injective(rulebook: Rulebook, a: EventView, b: EventView)
    requires
        event_frame(rulebook, a) == event_frame(rulebook, b),
    ensures
        a == b,
{
    let fa = event_frame(rulebook, a);
    let fb = event_frame(rulebook, b);
    assert(event_body(a) =~= fa.subrange(2, fa.len() as int));
    assert(event_body(b) =~= fb.subrange(2, fb.len() as int));
    lemma_event_body_injective(a, b);
}

/// Decoding undoes encoding: the frame of an event carries that event, for
/// every event and under every rulebook.
pub proof fn law_event_round_trip(rulebook: Rulebook, event: EventView)
    ensures
        framed_event(rulebook, event_frame(rulebook, event)) == Some(event),
{
    let bytes = event_frame(rulebook, event);
    let found = choose|other: EventView| event_frame(rulebook, other) == bytes;
    lemma_event_frame_injective(rulebook, found, event);
}

} // verus!
