use quoridor_net::moves::{GameEvent, Move, Orientation, Position, WallKind};
use quoridor_net::rulebook::Rulebook;
use quoridor_net::wire::{decode_event, decode_move, encode_event, encode_move, WIRE_VERSION};

fn every_move() -> Vec<Move> {
    let mut moves = vec![
        Move::MovePawn { from: Position::new(4, 0), to: Position::new(4, 1) },
        Move::MovePawn { from: Position::new(0, 0), to: Position::new(0, 0) },
        Move::MovePawn { from: Position::new(255, 254), to: Position::new(1, 0) },
    ];
    for orientation in [Orientation::Horizontal, Orientation::Vertical] {
        for kind in [WallKind::Simple, WallKind::Single, WallKind::Strong] {
            moves.push(Move::PlaceWall { position: Position::new(3, 9), orientation, kind });
            moves.push(Move::PlaceWall { position: Position::new(255, 0), orientation, kind });
        }
    }
    moves
}

#[test]
fn every_move_comes_back_from_its_frame() {
    for rulebook in [Rulebook::Standard, Rulebook::Free] {
        for mv in every_move() {
            let frame = encode_move(rulebook, &mv);
            assert_eq!(decode_move(rulebook, &frame), Some(mv));
        }
    }
}

#[test]
fn move_frames_are_laid_out_byte_by_byte() {
    let pawn = Move::MovePawn { from: Position::new(4, 0), to: Position::new(5, 1) };
    assert_eq!(encode_move(Rulebook::Standard, &pawn), vec![WIRE_VERSION, 0, 0, 4, 0, 5, 1]);
    assert_eq!(encode_move(Rulebook::Free, &pawn), vec![1, 1, 0, 4, 0, 5, 1]);
    let wall = Move::PlaceWall {
        position: Position::new(3, 7),
        orientation: Orientation::Vertical,
        kind: WallKind::Strong,
    };
    assert_eq!(encode_move(Rulebook::Standard, &wall), vec![1, 0, 1, 3, 7, 1, 2]);
    let wall = Move::PlaceWall {
        position: Position::new(3, 7),
        orientation: Orientation::Horizontal,
        kind: WallKind::Single,
    };
    assert_eq!(encode_move(Rulebook::Standard, &wall), vec![1, 0, 1, 3, 7, 0, 1]);
}

#[test]
fn move_frames_have_the_layout_that_bincode_gives_their_bytes() {
    let pawn = Move::MovePawn { from: Position::new(4, 0), to: Position::new(5, 1) };
    let as_tuple = bincode::serialize(&(WIRE_VERSION, 1u8, 0u8, 4u8, 0u8, 5u8, 1u8)).unwrap();
    assert_eq!(encode_move(Rulebook::Free, &pawn), as_tuple);
    let read: (u8, u8, u8, u8, u8, u8, u8) =
        bincode::deserialize(&encode_move(Rulebook::Free, &pawn)).unwrap();
    assert_eq!(read, (1, 1, 0, 4, 0, 5, 1));
}

#[test]
fn a_frame_of_another_rulebook_carries_no_move() {
    for mv in every_move() {
        let frame = encode_move(Rulebook::Standard, &mv);
        assert_eq!(decode_move(Rulebook::Free, &frame), None);
        let frame = encode_move(Rulebook::Free, &mv);
        assert_eq!(decode_move(Rulebook::Standard, &frame), None);
    }
}

#[test]
fn malformed_frames_carry_no_move() {
    let rulebook = Rulebook::Standard;
    assert_eq!(decode_move(rulebook, &[]), None);
    assert_eq!(decode_move(rulebook, &[1]), None);
    assert_eq!(decode_move(rulebook, &[1, 0, 0, 4, 0, 5]), None);
    assert_eq!(decode_move(rulebook, &[1, 0, 0, 4, 0, 5, 1, 0]), None);
    assert_eq!(decode_move(rulebook, &[2, 0, 0, 4, 0, 5, 1]), None);
    assert_eq!(decode_move(rulebook, &[0, 0, 0, 4, 0, 5, 1]), None);
    assert_eq!(decode_move(rulebook, &[1, 2, 0, 4, 0, 5, 1]), None);
    assert_eq!(decode_move(rulebook, &[1, 0, 2, 4, 0, 5, 1]), None);
    assert_eq!(decode_move(rulebook, &[1, 0, 1, 4, 0, 2, 1]), None);
    assert_eq!(decode_move(rulebook, &[1, 0, 1, 4, 0, 1, 3]), None);
    assert_eq!(
        decode_move(rulebook, &[1, 0, 1, 4, 0, 1, 2]),
        Some(Move::PlaceWall {
            position: Position::new(4, 0),
            orientation: Orientation::Vertical,
            kind: WallKind::Strong,
        })
    );
}

fn every_event() -> Vec<GameEvent> {
    let mut events = vec![
        GameEvent::SessionStart { state: vec![], player_slot: 0 },
        GameEvent::SessionStart { state: vec![9, 8, 7, 0, 255], player_slot: 1 },
        GameEvent::SessionEnd { winner: None },
        GameEvent::SessionEnd { winner: Some(0) },
        GameEvent::SessionEnd { winner: Some(255) },
        GameEvent::PeerDisconnected,
    ];
    for mv in every_move() {
        events.push(GameEvent::MoveApplied { mv });
    }
    events
}

#[test]
fn every_event_comes_back_from_its_frame() {
    for rulebook in [Rulebook::Standard, Rulebook::Free] {
        for event in every_event() {
            let frame = encode_event(rulebook, &event);
            let back = decode_event(rulebook, &frame).expect("a frame of an event");
            assert!(back.same_as(&event), "{:?} came back as {:?}", event, back);
            assert!(back.duplicate().same_as(&event));
        }
    }
}

#[test]
fn event_frames_are_laid_out_byte_by_byte() {
    let rulebook = Rulebook::Free;
    let start = GameEvent::SessionStart { state: vec![10, 20, 30], player_slot: 1 };
    assert_eq!(encode_event(rulebook, &start), vec![1, 1, 0, 1, 10, 20, 30]);
    let applied = GameEvent::MoveApplied {
        mv: Move::MovePawn { from: Position::new(4, 0), to: Position::new(4, 1) },
    };
    assert_eq!(encode_event(rulebook, &applied), vec![1, 1, 1, 0, 4, 0, 4, 1]);
    assert_eq!(encode_event(rulebook, &GameEvent::SessionEnd { winner: None }), vec![1, 1, 2, 0]);
    assert_eq!(
        encode_event(rulebook, &GameEvent::SessionEnd { winner: Some(1) }),
        vec![1, 1, 2, 1, 1]
    );
    assert_eq!(encode_event(rulebook, &GameEvent::PeerDisconnected), vec![1, 1, 3]);
}

#[test]
fn malformed_frames_carry_no_event() {
    let rulebook = Rulebook::Standard;
    assert!(decode_event(rulebook, &[]).is_none());
    assert!(decode_event(rulebook, &[1, 0]).is_none());
    assert!(decode_event(rulebook, &[1, 0, 0]).is_none());
    assert!(decode_event(rulebook, &[1, 0, 4]).is_none());
    assert!(decode_event(rulebook, &[1, 0, 3, 0]).is_none());
    assert!(decode_event(rulebook, &[1, 0, 2]).is_none());
    assert!(decode_event(rulebook, &[1, 0, 2, 2]).is_none());
    assert!(decode_event(rulebook, &[1, 0, 2, 0, 0]).is_none());
    assert!(decode_event(rulebook, &[1, 0, 2, 1]).is_none());
    assert!(decode_event(rulebook, &[1, 0, 2, 1, 0, 0]).is_none());
    assert!(decode_event(rulebook, &[1, 0, 1, 0, 4, 0, 4]).is_none());
    assert!(decode_event(rulebook, &[1, 0, 1, 0, 4, 0, 4, 1, 0]).is_none());
    assert!(decode_event(rulebook, &[1, 0, 1, 5, 4, 0, 4, 1]).is_none());
    assert!(decode_event(rulebook, &[1, 1, 3]).is_none());
    assert!(decode_event(rulebook, &[3, 0, 3]).is_none());
    assert!(decode_event(rulebook, &[1, 0, 3]).unwrap().same_as(&GameEvent::PeerDisconnected));
}

#[test]
fn events_differ_where_their_data_differ() {
    let events = every_event();
    for (i, a) in events.iter().enumerate() {
        for (j, b) in events.iter().enumerate() {
            assert_eq!(a.same_as(b), i == j, "{:?} and {:?}", a, b);
        }
    }
}
