use bimap::BiMap;
use quoridor_net::board::{occupant_of, owned_by, pawn_at};
use quoridor_net::client::{ClientController, Notice, Phase, Reaction};
use quoridor_net::gesture::{modifier_of, Gesture, Grid, Hit, PointerContext};
use quoridor_net::moves::{GameEvent, Move, Orientation, Position, Wall, WallKind};
use quoridor_net::rulebook::Rulebook;
use quoridor_net::wire::{encode_event, encode_move};

fn cell(x: u8, y: u8) -> Option<Hit> {
    Some(Hit::Cell(Position::new(x, y)))
}

fn edge(x: u8, y: u8, orientation: Orientation) -> Option<Hit> {
    Some(Hit::WallEdge(Wall { position: Position::new(x, y), orientation, kind: WallKind::Single }))
}

fn context(side: u8, turn: u8, occupant: Option<u8>) -> PointerContext {
    PointerContext { side, turn, occupant, modifier: None }
}

#[test]
fn the_standard_grid_sorts_points_into_cells_slots_and_edges() {
    let grid = Grid::standard();
    // a strip is 2 wide and a square 5: offsets 0..=2 are wall, 3..=6 are square
    assert_eq!(grid.locate(3, 3), cell(0, 8));
    assert_eq!(grid.locate(6, 6), cell(0, 8));
    assert_eq!(grid.locate(2, 2), Some(Hit::WallSlot(Position::new(0, 9))));
    assert_eq!(grid.locate(0, 0), Some(Hit::WallSlot(Position::new(0, 9))));
    assert_eq!(grid.locate(7, 7), Some(Hit::WallSlot(Position::new(1, 8))));
    assert_eq!(grid.locate(3, 2), edge(0, 9, Orientation::Horizontal));
    assert_eq!(grid.locate(2, 3), edge(0, 8, Orientation::Vertical));
    assert_eq!(grid.locate(4 * 7 + 4, 8 * 7 + 5), cell(4, 0));
    assert_eq!(grid.locate(8 * 7 + 6, 0 * 7 + 3), cell(8, 8));
    assert_eq!(grid.locate(9 * 7 + 1, 9 * 7 + 2), Some(Hit::WallSlot(Position::new(9, 0))));
    assert_eq!(grid.locate(5 * 7 + 4, 9 * 7), edge(5, 0, Orientation::Horizontal));
    assert_eq!(grid.locate(9 * 7 + 2, 4 * 7 + 3), edge(9, 4, Orientation::Vertical));
}

#[test]
fn points_off_the_board_hit_nothing() {
    let grid = Grid::standard();
    assert_eq!(grid.locate(9 * 7 + 3, 3), None);
    assert_eq!(grid.locate(3, 9 * 7 + 3), None);
    assert_eq!(grid.locate(10 * 7, 0), None);
    assert_eq!(grid.locate(0, 10 * 7), None);
    assert_eq!(grid.locate(9 * 7 + 3, 2), None);
    assert_eq!(grid.locate(2, 9 * 7 + 3), None);
    assert_eq!(grid.locate(u32::MAX, u32::MAX), None);
}

#[test]
fn a_grid_needs_squares_and_widths_that_fit() {
    assert!(Grid::new(2, 0).is_none());
    assert!(Grid::new(u32::MAX, 1).is_none());
    assert!(Grid::new(1, u32::MAX).is_none());
    let grid = Grid::new(0, 10).unwrap();
    assert_eq!(grid.locate(5, 5), cell(0, 8));
    assert_eq!(grid.locate(10, 15), edge(1, 7, Orientation::Vertical));
    assert_eq!(grid.locate(10, 5), edge(1, 8, Orientation::Vertical));
    let grid = Grid::new(2000, 5000).unwrap();
    assert_eq!(grid.locate(2001, 2001), cell(0, 8));
    assert_eq!(grid.locate(2000, 2000), Some(Hit::WallSlot(Position::new(0, 9))));
    assert_eq!(grid.locate(64_999, 64_999), Some(Hit::WallSlot(Position::new(9, 0))));
}

#[test]
fn a_press_on_an_own_pawn_selects_it() {
    let mut gesture = Gesture::new();
    assert_eq!(gesture.pointer_down(cell(4, 0), &context(0, 0, Some(0))), None);
    assert_eq!(gesture.selected, Some(Position::new(4, 0)));

    let mut gesture = Gesture::new();
    assert_eq!(gesture.pointer_down(cell(4, 8), &context(0, 0, Some(1))), None);
    assert_eq!(gesture.selected, None);
    assert_eq!(gesture.pointer_down(cell(3, 3), &context(0, 0, None)), None);
    assert_eq!(gesture.selected, None);
}

#[test]
fn a_press_on_another_square_moves_the_selected_pawn() {
    let mut gesture = Gesture::new();
    gesture.pointer_down(cell(4, 0), &context(0, 0, Some(0)));
    assert_eq!(
        gesture.pointer_down(cell(4, 1), &context(0, 0, None)),
        Some(Move::MovePawn { from: Position::new(4, 0), to: Position::new(4, 1) })
    );
    assert_eq!(gesture.selected, None);
}

#[test]
fn a_press_that_cannot_move_the_pawn_only_ends_the_selection() {
    let selected = Gesture { selected: Some(Position::new(4, 0)), half_wall: None };

    let mut gesture = selected;
    assert_eq!(gesture.pointer_down(cell(4, 0), &context(0, 0, Some(0))), None);
    assert_eq!(gesture.selected, None);

    let mut gesture = selected;
    assert_eq!(gesture.pointer_down(cell(4, 1), &context(0, 1, None)), None);
    assert_eq!(gesture.selected, None);

    let mut gesture = selected;
    assert_eq!(gesture.pointer_down(cell(4, 1), &context(0, 0, Some(1))), None);
    assert_eq!(gesture.selected, None);
}

#[test]
fn a_press_on_a_junction_places_a_wall_at_once() {
    let slot = Some(Hit::WallSlot(Position::new(3, 4)));
    for orientation in [Orientation::Horizontal, Orientation::Vertical] {
        let mut gesture = Gesture::new();
        let pressed =
            PointerContext { side: 1, turn: 1, occupant: None, modifier: Some(orientation) };
        assert_eq!(
            gesture.pointer_down(slot, &pressed),
            Some(Move::PlaceWall {
                position: Position::new(3, 4),
                orientation,
                kind: WallKind::Simple,
            })
        );
        assert_eq!(gesture, Gesture::new());
        let waiting = PointerContext { turn: 0, ..pressed };
        assert_eq!(gesture.pointer_down(slot, &waiting), None);
    }
    let mut gesture = Gesture::new();
    assert_eq!(gesture.pointer_down(slot, &context(1, 1, None)), None);
}

#[test]
fn two_matching_half_walls_place_one_wall_at_the_larger_anchor() {
    let cases = [
        ((3, 4), (4, 4), (4, 4)),
        ((4, 4), (3, 4), (4, 4)),
        ((3, 4), (3, 5), (3, 5)),
        ((3, 5), (3, 4), (3, 5)),
        ((0, 0), (1, 0), (1, 0)),
    ];
    for orientation in [Orientation::Horizontal, Orientation::Vertical] {
        for (first, second, at) in cases {
            for turn in [0, 1] {
                let mut gesture = Gesture::new();
                let down = edge(first.0, first.1, orientation);
                assert_eq!(gesture.pointer_down(down, &context(0, turn, None)), None);
                assert_eq!(
                    gesture.pointer_up(edge(second.0, second.1, orientation)),
                    Some(Move::PlaceWall {
                        position: Position::new(at.0, at.1),
                        orientation,
                        kind: WallKind::Simple,
                    })
                );
                assert_eq!(gesture.half_wall, None);
                assert_eq!(gesture.pointer_up(edge(second.0, second.1, orientation)), None);
            }
        }
    }
}

#[test]
fn half_walls_that_do_not_match_place_nothing() {
    let h = Orientation::Horizontal;
    let v = Orientation::Vertical;
    let cases = [
        (edge(3, 4, h), edge(4, 4, v)),
        (edge(3, 4, h), edge(3, 4, h)),
        (edge(3, 4, h), edge(5, 4, h)),
        (edge(3, 4, h), edge(4, 5, h)),
        (edge(0, 0, v), edge(255, 0, v)),
        (edge(3, 4, v), cell(3, 4)),
        (edge(3, 4, v), Some(Hit::WallSlot(Position::new(3, 5)))),
        (edge(3, 4, v), None),
    ];
    for (down, up) in cases {
        let mut gesture = Gesture::new();
        assert_eq!(gesture.pointer_down(down, &context(0, 0, None)), None);
        assert!(gesture.half_wall.is_some());
        assert_eq!(gesture.pointer_up(up), None);
        assert_eq!(gesture.half_wall, None);
    }
    let mut gesture = Gesture::new();
    assert_eq!(gesture.pointer_up(edge(3, 4, h)), None);
}

#[test]
fn the_client_waits_for_the_session_to_start() {
    let mut client = ClientController::new(Rulebook::Standard);
    assert_eq!(client.phase(), Phase::Handshake);
    let mv = Move::MovePawn { from: Position::new(4, 0), to: Position::new(4, 1) };
    assert_eq!(client.on_event(&GameEvent::MoveApplied { mv }), Reaction::Ignore);
    assert_eq!(client.on_event(&GameEvent::PeerDisconnected), Reaction::Ignore);
    assert_eq!(client.phase(), Phase::Handshake);
    assert_eq!(client.pointer_down(cell(4, 0), 0, Some(0), None), None);
    assert_eq!(client.gesture(), Gesture::new());

    let start = GameEvent::SessionStart { state: vec![1, 2], player_slot: 1 };
    assert_eq!(client.on_event(&start), Reaction::Start { side: 1 });
    assert_eq!(client.phase(), Phase::Playing);
    assert_eq!(client.side(), 1);
    assert_eq!(client.on_event(&start), Reaction::Ignore);
    assert_eq!(client.on_event(&GameEvent::MoveApplied { mv }), Reaction::Apply { mv });
    assert_eq!(client.phase(), Phase::Playing);
}

#[test]
fn the_end_of_the_session_stops_the_input() {
    let endings = [
        (GameEvent::SessionEnd { winner: Some(1) }, Notice::Won { winner: 1 }),
        (GameEvent::SessionEnd { winner: None }, Notice::Draw),
        (GameEvent::PeerDisconnected, Notice::PeerLeft),
    ];
    for (event, notice) in endings {
        let mut client = ClientController::new(Rulebook::Standard);
        client.on_event(&GameEvent::SessionStart { state: vec![], player_slot: 0 });
        assert_eq!(client.pointer_down(cell(4, 0), 0, Some(0), None), None);
        assert_eq!(client.on_event(&event), Reaction::Notify { notice });
        assert_eq!(client.phase(), Phase::Ended);
        assert_eq!(client.pointer_down(cell(4, 1), 0, None, None), None);
        assert_eq!(client.pointer_up(cell(4, 1)), None);
        assert_eq!(client.gesture().selected, Some(Position::new(4, 0)));
        assert_eq!(client.on_event(&event), Reaction::Ignore);
        assert!(client.next_frame().is_none());
    }
}

#[test]
fn moves_leave_the_client_as_frames_in_the_order_they_were_made() {
    let rulebook = Rulebook::Free;
    let mut client = ClientController::new(rulebook);
    let start = encode_event(rulebook, &GameEvent::SessionStart { state: vec![7], player_slot: 0 });
    let (event, reaction) = client.on_frame(&start).unwrap();
    assert!(event.same_as(&GameEvent::SessionStart { state: vec![7], player_slot: 0 }));
    assert_eq!(reaction, Reaction::Start { side: 0 });
    assert!(client.on_frame(&[1, 0, 3]).is_none());
    assert!(client.on_frame(&[]).is_none());
    assert_eq!(client.phase(), Phase::Playing);

    client.pointer_down(cell(4, 0), 0, Some(0), None);
    let first = client.pointer_down(cell(4, 1), 0, None, None).unwrap();
    client.pointer_down(edge(2, 2, Orientation::Vertical), 1, None, None);
    let second = client.pointer_up(edge(2, 3, Orientation::Vertical)).unwrap();
    let slot = Some(Hit::WallSlot(Position::new(5, 5)));
    let third = client.pointer_down(slot, 0, None, Some(Orientation::Horizontal)).unwrap();

    assert_eq!(client.next_frame(), Some(encode_move(rulebook, &first)));
    assert_eq!(
        client.drain_frames(),
        vec![encode_move(rulebook, &second), encode_move(rulebook, &third)]
    );
    assert!(client.drain_frames().is_empty());
    assert!(client.next_frame().is_none());
}

#[test]
fn a_pawn_belongs_to_the_player_whose_block_of_numbers_holds_it() {
    assert_eq!(owned_by(0, 2, 2), Some(0));
    assert_eq!(owned_by(1, 2, 2), Some(1));
    assert_eq!(owned_by(0, 4, 2), Some(0));
    assert_eq!(owned_by(1, 4, 2), Some(0));
    assert_eq!(owned_by(2, 4, 2), Some(1));
    assert_eq!(owned_by(3, 4, 2), Some(1));
    assert_eq!(owned_by(3, 4, 4), Some(3));
    assert_eq!(owned_by(7, 9, 4), Some(3));
    assert_eq!(owned_by(255, 255, 1), Some(1));
    assert_eq!(owned_by(0, 2, 0), None);
    assert_eq!(owned_by(0, 1, 2), None);
    assert_eq!(owned_by(0, 0, 0), None);
}

#[test]
fn the_pawn_table_says_who_stands_where() {
    let mut pawns: BiMap<u8, (u8, u8)> = BiMap::new();
    pawns.insert(0, (4, 0));
    pawns.insert(1, (4, 8));
    pawns.insert(7, (7, 7));
    assert_eq!(pawn_at(&pawns, Position::new(4, 0)), Some(0));
    assert_eq!(pawn_at(&pawns, Position::new(4, 8)), Some(1));
    assert_eq!(pawn_at(&pawns, Position::new(7, 7)), Some(7));
    assert_eq!(pawn_at(&pawns, Position::new(0, 4)), None);
    assert_eq!(pawn_at(&pawns, Position::new(8, 4)), None);
    assert_eq!(occupant_of(&pawns, Position::new(4, 8), 2, 2), Some(1));
    assert_eq!(occupant_of(&pawns, Position::new(4, 0), 2, 2), Some(0));
    assert_eq!(occupant_of(&pawns, Position::new(4, 1), 2, 2), None);
    assert_eq!(occupant_of(&pawns, Position::new(4, 8), 2, 0), None);
    pawns.insert(1, (4, 7));
    assert_eq!(pawn_at(&pawns, Position::new(4, 8)), None);
    assert_eq!(pawn_at(&pawns, Position::new(4, 7)), Some(1));
}

#[test]
fn a_press_reads_the_owner_of_the_pawn_from_the_table() {
    let mut pawns: BiMap<u8, (u8, u8)> = BiMap::new();
    pawns.insert(0, (4, 0));
    pawns.insert(1, (4, 8));
    let mut client = ClientController::new(Rulebook::Standard);
    client.on_event(&GameEvent::SessionStart { state: vec![], player_slot: 1 });

    assert_eq!(client.pointer_down_on(cell(4, 0), 1, &pawns, 2, 2, None), None);
    assert_eq!(client.gesture().selected, None);
    assert_eq!(client.pointer_down_on(cell(4, 8), 1, &pawns, 2, 2, None), None);
    assert_eq!(client.gesture().selected, Some(Position::new(4, 8)));
    assert_eq!(client.pointer_down_on(cell(4, 0), 1, &pawns, 2, 2, None), None);
    assert_eq!(client.gesture().selected, None);

    client.pointer_down_on(cell(4, 8), 1, &pawns, 2, 2, None);
    assert_eq!(
        client.pointer_down_on(cell(4, 7), 1, &pawns, 2, 2, None),
        Some(Move::MovePawn { from: Position::new(4, 8), to: Position::new(4, 7) })
    );
    assert_eq!(
        client.pointer_down_on(
            Some(Hit::WallSlot(Position::new(4, 0))),
            1,
            &pawns,
            2,
            2,
            Some(Orientation::Vertical)
        ),
        Some(Move::PlaceWall {
            position: Position::new(4, 0),
            orientation: Orientation::Vertical,
            kind: WallKind::Simple,
        })
    );
}

fn playing(rulebook: Rulebook, side: u8) -> ClientController {
    let mut client = ClientController::new(rulebook);
    client.on_event(&GameEvent::SessionStart { state: vec![], player_slot: side });
    client
}

fn queue_two_moves(client: &mut ClientController) -> (Move, Move) {
    let turn = client.side();
    let slot = Some(Hit::WallSlot(Position::new(1, 1)));
    let first = client.pointer_down(slot, turn, None, Some(Orientation::Vertical)).unwrap();
    let slot = Some(Hit::WallSlot(Position::new(2, 2)));
    let second = client.pointer_down(slot, turn, None, Some(Orientation::Horizontal)).unwrap();
    (first, second)
}

#[test]
fn flush_hands_the_queued_moves_to_the_channel_in_order() {
    let rulebook = Rulebook::Standard;
    let mut client = playing(rulebook, 0);
    let (first, second) = queue_two_moves(&mut client);
    let (transport, wire) = crossbeam_channel::unbounded::<Vec<u8>>();
    assert_eq!(client.flush(&transport), 2);
    assert_eq!(wire.try_recv(), Ok(encode_move(rulebook, &first)));
    assert_eq!(wire.try_recv(), Ok(encode_move(rulebook, &second)));
    assert!(wire.try_recv().is_err());
    assert_eq!(client.flush(&transport), 0);
    assert!(client.next_frame().is_none());
}

#[test]
fn flush_keeps_what_the_channel_does_not_take() {
    let rulebook = Rulebook::Standard;
    let mut client = playing(rulebook, 0);
    let (first, second) = queue_two_moves(&mut client);
    let (transport, wire) = crossbeam_channel::bounded::<Vec<u8>>(1);
    assert_eq!(client.flush(&transport), 1);
    assert_eq!(client.flush(&transport), 0);
    assert_eq!(wire.try_recv(), Ok(encode_move(rulebook, &first)));
    assert_eq!(client.flush(&transport), 1);
    assert_eq!(wire.try_recv(), Ok(encode_move(rulebook, &second)));

    let mut client = playing(rulebook, 0);
    let (first, _) = queue_two_moves(&mut client);
    let (transport, wire) = crossbeam_channel::unbounded::<Vec<u8>>();
    drop(wire);
    assert_eq!(client.flush(&transport), 0);
    assert_eq!(client.next_frame(), Some(encode_move(rulebook, &first)));
}

#[test]
fn poll_takes_in_one_arrived_frame() {
    let rulebook = Rulebook::Free;
    let mut client = ClientController::new(rulebook);
    let (socket, arrivals) = crossbeam_channel::unbounded::<Vec<u8>>();
    assert!(client.poll(&arrivals).is_none());

    let mv = Move::MovePawn { from: Position::new(4, 0), to: Position::new(4, 1) };
    let start = GameEvent::SessionStart { state: vec![3], player_slot: 1 };
    socket.send(encode_event(rulebook, &start)).unwrap();
    socket.send(vec![0, 1, 2]).unwrap();
    socket.send(encode_event(rulebook, &GameEvent::MoveApplied { mv })).unwrap();
    socket.send(encode_event(rulebook, &GameEvent::SessionEnd { winner: Some(0) })).unwrap();

    let (event, reaction) = client.poll(&arrivals).unwrap();
    assert!(event.same_as(&GameEvent::SessionStart { state: vec![3], player_slot: 1 }));
    assert_eq!(reaction, Reaction::Start { side: 1 });
    assert!(client.poll(&arrivals).is_none());
    assert_eq!(client.phase(), Phase::Playing);
    let (_, reaction) = client.poll(&arrivals).unwrap();
    assert_eq!(reaction, Reaction::Apply { mv });
    let (_, reaction) = client.poll(&arrivals).unwrap();
    assert_eq!(reaction, Reaction::Notify { notice: Notice::Won { winner: 0 } });
    assert_eq!(client.phase(), Phase::Ended);
    assert!(client.poll(&arrivals).is_none());
    drop(socket);
    assert!(client.poll(&arrivals).is_none());
}

#[test]
fn a_tick_sends_the_moves_and_takes_in_every_arrived_event() {
    let rulebook = Rulebook::Standard;
    let mut client = playing(rulebook, 1);
    let (first, second) = queue_two_moves(&mut client);
    let (transport, wire) = crossbeam_channel::unbounded::<Vec<u8>>();
    let (socket, arrivals) = crossbeam_channel::unbounded::<Vec<u8>>();
    let mv = Move::MovePawn { from: Position::new(4, 0), to: Position::new(4, 1) };
    socket.send(encode_event(rulebook, &GameEvent::MoveApplied { mv })).unwrap();
    socket.send(vec![9, 9]).unwrap();
    socket.send(encode_event(rulebook, &GameEvent::PeerDisconnected)).unwrap();
    socket.send(encode_event(rulebook, &GameEvent::MoveApplied { mv })).unwrap();

    let received = client.tick(&transport, &arrivals);
    assert_eq!(received.len(), 3);
    assert!(received[0].0.same_as(&GameEvent::MoveApplied { mv }));
    assert_eq!(received[0].1, Reaction::Apply { mv });
    assert!(received[1].0.same_as(&GameEvent::PeerDisconnected));
    assert_eq!(received[1].1, Reaction::Notify { notice: Notice::PeerLeft });
    assert!(received[2].0.same_as(&GameEvent::MoveApplied { mv }));
    assert_eq!(received[2].1, Reaction::Ignore);
    assert_eq!(client.phase(), Phase::Ended);
    assert_eq!(
        wire.try_iter().collect::<Vec<_>>(),
        vec![encode_move(rulebook, &first), encode_move(rulebook, &second)]
    );
    assert!(client.tick(&transport, &arrivals).is_empty());
    assert!(wire.try_recv().is_err());
    assert!(arrivals.try_recv().is_err());
}

#[test]
fn the_answer_of_the_channel_decides_whether_a_move_leaves_the_outbox() {
    let rulebook = Rulebook::Standard;
    let mut client = playing(rulebook, 0);
    assert!(!client.offered(true));
    assert!(!client.offered(false));
    let (first, second) = queue_two_moves(&mut client);
    assert!(!client.offered(false));
    assert!(client.offered(true));
    assert!(!client.offered(false));
    assert_eq!(client.next_frame(), Some(encode_move(rulebook, &second)));
    assert!(client.next_frame().is_none());
    let mut client = playing(rulebook, 0);
    queue_two_moves(&mut client);
    assert!(client.offered(true));
    assert!(!client.offered(true));
    assert!(client.next_frame().is_none());
    let _ = first;
}

#[test]
fn take_in_stops_at_its_limit_and_at_an_empty_channel() {
    let rulebook = Rulebook::Free;
    let mut client = playing(rulebook, 0);
    let (socket, arrivals) = crossbeam_channel::unbounded::<Vec<u8>>();
    let mv = Move::MovePawn { from: Position::new(1, 1), to: Position::new(1, 2) };
    for _ in 0..3 {
        socket.send(encode_event(rulebook, &GameEvent::MoveApplied { mv })).unwrap();
    }
    assert!(client.take_in(&arrivals, 0).is_empty());
    assert_eq!(client.take_in(&arrivals, 2).len(), 2);
    assert_eq!(client.take_in(&arrivals, 5).len(), 1);
    assert!(client.take_in(&arrivals, 5).is_empty());

    socket.send(vec![]).unwrap();
    socket.send(encode_event(rulebook, &GameEvent::SessionEnd { winner: None })).unwrap();
    let received = client.poll_all(&arrivals);
    assert_eq!(received.len(), 1);
    assert_eq!(received[0].1, Reaction::Notify { notice: Notice::Draw });
    assert!(client.poll_all(&arrivals).is_empty());
}

#[test]
fn the_button_of_a_mouse_selects_the_orientation() {
    assert_eq!(modifier_of(true, 0), Some(Orientation::Vertical));
    assert_eq!(modifier_of(true, 1), Some(Orientation::Horizontal));
    assert_eq!(modifier_of(true, 2), Some(Orientation::Horizontal));
    assert_eq!(modifier_of(true, -1), Some(Orientation::Horizontal));
    assert_eq!(modifier_of(false, 0), None);
    assert_eq!(modifier_of(false, 2), None);
}

#[test]
fn a_press_beside_the_board_changes_nothing() {
    let begun = Gesture {
        selected: Some(Position::new(4, 0)),
        half_wall: Some(Wall {
            position: Position::new(1, 1),
            orientation: Orientation::Horizontal,
            kind: WallKind::Single,
        }),
    };
    let mut gesture = begun;
    assert_eq!(gesture.pointer_down(None, &context(0, 0, None)), None);
    assert_eq!(gesture, begun);
    let pressed = PointerContext { modifier: Some(Orientation::Vertical), ..context(0, 0, None) };
    assert!(gesture.pointer_down(Some(Hit::WallSlot(Position::new(2, 2))), &pressed).is_some());
    assert_eq!(gesture, begun);
}

#[test]
fn what_the_channel_hands_over_is_taken_in_or_dropped() {
    let rulebook = Rulebook::Standard;
    let mut client = playing(rulebook, 0);
    let mut received = Vec::new();
    assert!(!client.arrived(None, &mut received));
    assert!(received.is_empty());
    assert!(client.arrived(Some(vec![7]), &mut received));
    assert!(received.is_empty());
    let mv = Move::MovePawn { from: Position::new(4, 0), to: Position::new(4, 1) };
    let frame = encode_event(rulebook, &GameEvent::MoveApplied { mv });
    assert!(client.arrived(Some(frame), &mut received));
    let frame = encode_event(rulebook, &GameEvent::SessionEnd { winner: Some(1) });
    assert!(client.arrived(Some(frame), &mut received));
    assert_eq!(received.len(), 2);
    assert!(received[0].0.same_as(&GameEvent::MoveApplied { mv }));
    assert_eq!(received[0].1, Reaction::Apply { mv });
    assert_eq!(received[1].1, Reaction::Notify { notice: Notice::Won { winner: 1 } });
    assert_eq!(client.phase(), Phase::Ended);
}
