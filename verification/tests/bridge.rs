use quoridor_net::bridge::{Inbound, TransportBridge};
use quoridor_net::lobby::{LobbyError, LobbyRegistry};
use quoridor_net::moves::{GameEvent, Move, MoveResult, PlayerSlot, Position, Winner};
use quoridor_net::rulebook::Rulebook;
use quoridor_net::session::{IllegalMove, RulesEngine, SessionDriver};
use quoridor_net::wire::{decode_event, encode_event, encode_move};

/// Players move in turn; any pawn move is legal; a pawn on row 8 wins.
struct Walk {
    turn: PlayerSlot,
    count: u8,
    over: Option<Winner>,
}

impl RulesEngine for Walk {
    fn turn_of(&self) -> PlayerSlot {
        self.turn
    }

    fn apply_move(&mut self, mv: &Move) -> Result<(), IllegalMove> {
        match mv {
            Move::MovePawn { to, .. } => {
                self.count += 1;
                if to.y == 8 {
                    self.over = Some(Some(self.turn));
                }
                self.turn = 1 - self.turn;
                Ok(())
            }
            Move::PlaceWall { .. } => Err(IllegalMove),
        }
    }

    fn is_terminal(&self) -> Option<Winner> {
        self.over
    }

    fn snapshot(&self) -> Vec<u8> {
        vec![self.count]
    }
}

fn pawn(from: (u8, u8), to: (u8, u8)) -> Move {
    Move::MovePawn { from: Position::new(from.0, from.1), to: Position::new(to.0, to.1) }
}

fn table(name: &str, rulebook: Rulebook) -> (LobbyRegistry<()>, SessionDriver<Walk>) {
    let mut registry = LobbyRegistry::new();
    registry.create(name.to_string(), rulebook, ()).unwrap();
    (registry, SessionDriver::new(Walk { turn: 0, count: 0, over: None }, rulebook))
}

#[test]
fn opening_a_bridge_takes_a_seat() {
    let (mut registry, _) = table("g", Rulebook::Standard);
    let first = TransportBridge::open(&mut registry, "g").unwrap();
    assert_eq!((first.name.as_str(), first.slot), ("g", 1));
    let second = TransportBridge::open(&mut registry, "g").unwrap();
    assert_eq!((second.name.as_str(), second.slot), ("g", 0));
    assert!(registry.active("g").is_some());
    assert_eq!(TransportBridge::open(&mut registry, "g").unwrap_err(), LobbyError::NotFound);
    assert_eq!(TransportBridge::open(&mut registry, "h").unwrap_err(), LobbyError::NotFound);
}

#[test]
fn a_move_for_a_lobby_is_queued_until_the_session_is_active() {
    let (mut registry, mut driver) = table("g", Rulebook::Standard);
    let early = TransportBridge::open(&mut registry, "g").unwrap();
    assert!(early.bind(&mut driver));
    let frame = encode_move(Rulebook::Standard, &pawn((4, 0), (4, 1)));
    let other = TransportBridge { name: "g".to_string(), slot: 0 };
    assert_eq!(other.inbound(&mut registry, &mut driver, &frame), Inbound::Queued);
    assert_eq!(driver.engine().count, 0);

    let late = TransportBridge::open(&mut registry, "g").unwrap();
    assert_eq!(late.slot, 0);
    assert!(late.bind(&mut driver));
    let frame = encode_move(Rulebook::Standard, &pawn((4, 8), (4, 7)));
    assert_eq!(
        early.inbound(&mut registry, &mut driver, &frame),
        Inbound::Stepped { result: MoveResult::Continue }
    );
    assert_eq!(driver.engine().count, 1);
}

#[test]
fn frames_go_out_in_the_order_of_the_events() {
    let rulebook = Rulebook::Free;
    let (mut registry, mut driver) = table("g", rulebook);
    let one = TransportBridge::open(&mut registry, "g").unwrap();
    let zero = TransportBridge::open(&mut registry, "g").unwrap();
    assert!(one.bind(&mut driver));
    assert!(zero.bind(&mut driver));
    assert!(!zero.bind(&mut driver));

    let first = pawn((4, 0), (4, 1));
    let second = pawn((4, 8), (4, 7));
    assert_eq!(
        zero.inbound(&mut registry, &mut driver, &encode_move(rulebook, &first)),
        Inbound::Stepped { result: MoveResult::Continue }
    );
    assert_eq!(
        one.inbound(&mut registry, &mut driver, &encode_move(rulebook, &second)),
        Inbound::Stepped { result: MoveResult::Continue }
    );

    let expected = vec![
        encode_event(rulebook, &GameEvent::SessionStart { state: vec![0], player_slot: 1 }),
        encode_event(rulebook, &GameEvent::MoveApplied { mv: first }),
        encode_event(rulebook, &GameEvent::MoveApplied { mv: second }),
    ];
    assert_eq!(one.drain(&mut driver), expected);
    assert!(one.drain(&mut driver).is_empty());
    assert!(one.outbound(&mut driver).is_none());

    let head = zero.outbound(&mut driver).unwrap();
    assert!(decode_event(rulebook, &head)
        .unwrap()
        .same_as(&GameEvent::SessionStart { state: vec![0], player_slot: 0 }));
    assert_eq!(zero.drain(&mut driver), expected[1..].to_vec());
}

#[test]
fn the_move_that_ends_the_game_retires_the_session() {
    let rulebook = Rulebook::Standard;
    let (mut registry, mut driver) = table("g", rulebook);
    let one = TransportBridge::open(&mut registry, "g").unwrap();
    let zero = TransportBridge::open(&mut registry, "g").unwrap();
    let last = pawn((4, 7), (4, 8));
    assert_eq!(
        zero.inbound(&mut registry, &mut driver, &encode_move(rulebook, &last)),
        Inbound::Stepped { result: MoveResult::Terminated }
    );
    assert!(registry.session("g").is_none());
    let expected = vec![
        encode_event(rulebook, &GameEvent::MoveApplied { mv: last }),
        encode_event(rulebook, &GameEvent::SessionEnd { winner: Some(0) }),
    ];
    assert_eq!(one.drain(&mut driver), expected);
    assert_eq!(zero.drain(&mut driver), expected);
}

#[test]
fn an_illegal_move_keeps_the_connection_and_the_session() {
    let rulebook = Rulebook::Standard;
    let (mut registry, mut driver) = table("g", rulebook);
    let one = TransportBridge::open(&mut registry, "g").unwrap();
    let zero = TransportBridge::open(&mut registry, "g").unwrap();
    let wall = Move::PlaceWall {
        position: Position::new(1, 1),
        orientation: quoridor_net::moves::Orientation::Horizontal,
        kind: quoridor_net::moves::WallKind::Simple,
    };
    assert_eq!(
        zero.inbound(&mut registry, &mut driver, &encode_move(rulebook, &wall)),
        Inbound::Stepped { result: MoveResult::Continue }
    );
    assert!(registry.active("g").is_some());
    assert!(one.drain(&mut driver).is_empty());
    assert!(zero.drain(&mut driver).is_empty());
}

#[test]
fn a_frame_that_is_no_move_ends_the_session_and_tells_the_peer_once() {
    let rulebook = Rulebook::Standard;
    let (mut registry, mut driver) = table("g", rulebook);
    registry.create("other".to_string(), rulebook, ()).unwrap();
    let one = TransportBridge::open(&mut registry, "g").unwrap();
    let zero = TransportBridge::open(&mut registry, "g").unwrap();
    assert_eq!(one.inbound(&mut registry, &mut driver, &[]), Inbound::Closed);
    assert!(registry.session("g").is_none());
    assert!(registry.session("other").is_some());
    assert_eq!(zero.drain(&mut driver), vec![encode_event(rulebook, &GameEvent::PeerDisconnected)]);
    assert!(one.drain(&mut driver).is_empty());
}

#[test]
fn a_frame_of_another_rulebook_counts_as_leaving() {
    let (mut registry, mut driver) = table("g", Rulebook::Standard);
    let one = TransportBridge::open(&mut registry, "g").unwrap();
    let frame = encode_move(Rulebook::Free, &pawn((4, 0), (4, 1)));
    assert_eq!(one.inbound(&mut registry, &mut driver, &frame), Inbound::Closed);
    assert!(registry.session("g").is_none());
}

#[test]
fn closing_removes_a_lobby_that_still_waits() {
    let rulebook = Rulebook::Standard;
    let (mut registry, mut driver) = table("g", rulebook);
    let one = TransportBridge::open(&mut registry, "g").unwrap();
    assert!(registry.session("g").is_some());
    one.close(&mut registry, &mut driver);
    assert!(registry.session("g").is_none());
    assert_eq!(registry.join("g"), Err(LobbyError::NotFound));
    let zero = TransportBridge { name: "g".to_string(), slot: 0 };
    assert_eq!(zero.drain(&mut driver), vec![encode_event(rulebook, &GameEvent::PeerDisconnected)]);
}

#[test]
fn relay_works_on_the_session_alone() {
    let rulebook = Rulebook::Standard;
    let (_, mut driver) = table("g", rulebook);
    let zero = TransportBridge { name: "g".to_string(), slot: 0 };
    let one = TransportBridge { name: "g".to_string(), slot: 1 };
    let first = pawn((4, 0), (4, 1));
    let outcome = zero.relay(&mut driver, false, &encode_move(rulebook, &first));
    assert_eq!(outcome, Inbound::Queued);
    assert!(!outcome.retires());
    assert_eq!(driver.engine().count, 0);

    let second = pawn((4, 8), (4, 7));
    let outcome = one.relay(&mut driver, true, &encode_move(rulebook, &second));
    assert_eq!(outcome, Inbound::Stepped { result: MoveResult::Continue });
    assert!(!outcome.retires());
    assert_eq!(driver.engine().count, 1);
    let told = encode_event(rulebook, &GameEvent::MoveApplied { mv: first });
    assert_eq!(zero.drain(&mut driver), vec![told]);

    let last = pawn((4, 7), (4, 8));
    let outcome = one.relay(&mut driver, true, &encode_move(rulebook, &last));
    assert_eq!(outcome, Inbound::Stepped { result: MoveResult::Continue });
    assert_eq!(driver.engine().count, 2);
    let outcome = zero.relay(&mut driver, true, &encode_move(rulebook, &last));
    assert_eq!(outcome, Inbound::Stepped { result: MoveResult::Terminated });
    assert!(outcome.retires());

    let outcome = one.relay(&mut driver, true, &[1, 2, 3]);
    assert_eq!(outcome, Inbound::Closed);
    assert!(outcome.retires());
    let left = encode_event(rulebook, &GameEvent::PeerDisconnected);
    assert_eq!(zero.drain(&mut driver).last(), Some(&left));
    assert!(!one.drain(&mut driver).contains(&left));
}
