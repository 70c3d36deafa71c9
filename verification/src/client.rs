//! The player's side of a session: the handshake, the events that arrive,
//! and the moves that go out.

use crate::board::{occupant_of, pawn_squares, square_owner};
use crate::gesture::{
    after_press, after_release, press_move, release_move, Gesture, Hit, PointerContext,
};
use crate::moves::{EventView, GameEvent, Move, Orientation, PlayerSlot};
use crate::rulebook::Rulebook;
use crate::wire::{decode_event, encode_move, framed_event, move_frame};
use bimap::BiHashMap;
use crossbeam_channel::{Receiver, Sender};
use std::collections::VecDeque;
use vstd::prelude::*;

verus! {

/// How far a client has come.
#[derive(Clone, Copy, Debug, PartialEq, Eq, Structural)]
pub enum Phase {
    /// Waiting for `SessionStart`: nothing is drawn and no input is taken.
    Handshake,
    /// The game is on.
    Playing,
    /// The game is over, or another player left: no input is taken any more.
    Ended,
}

/// What to tell the player when the session is over.
#[derive(Clone, Copy, Debug, PartialEq, Eq, Structural)]
pub enum Notice {
    Won { winner: PlayerSlot },
    Draw,
    PeerLeft,
}

/// What the owner of the local mirror has to do about an event.
#[derive(Clone, Copy, Debug, PartialEq, Eq, Structural)]
pub enum Reaction {
    /// Nothing.
    Ignore,
    /// Set the mirror up from the event's state and draw it for seat `side`.
    Start { side: PlayerSlot },
    /// Play the move on the mirror and draw it again.
    Apply { mv: Move },
    /// Show the notice.
    Notify { notice: Notice },
}

/// A `ClientController` as a mathematical value.
pub struct ControllerView {
    pub rulebook: Rulebook,
    pub phase: Phase,
    /// The local player's seat; meaningful once the handshake is done.
    pub side: PlayerSlot,
    pub gesture: Gesture,
    /// The moves not yet handed to the transport, oldest first.
    pub outbox: Seq<Move>,
}

/// The controller after an event has arrived.
///
/// During the handshake only `SessionStart` counts: it gives the player
/// a seat and starts the game. While the game is on, `SessionEnd` and
/// `PeerDisconnected` end it. Nothing else changes the controller.
pub open spec fn after_event(c: ControllerView, event: EventView) -> ControllerView {
    match (c.phase, event) {
        (Phase::Handshake, EventView::SessionStart { player_slot, .. }) => ControllerView {
            phase: Phase::Playing,
            side: player_slot,
            ..c
        },
        (Phase::Playing, EventView::SessionEnd { .. }) => ControllerView {
            phase: Phase::Ended,
            ..c
        },
        (Phase::Playing, EventView::PeerDisconnected) => ControllerView {
            phase: Phase::Ended,
            ..c
        },
        _ => c,
    }
}

/// What the owner of the mirror has to do about the event.
pub open spec fn reaction_to(c: ControllerView, event: EventView) -> Reaction {
    match (c.phase, event) {
        (Phase::Handshake, EventView::SessionStart { player_slot, .. }) => Reaction::Start {
            side: player_slot,
        },
        (Phase::Playing, EventView::MoveApplied { mv }) => Reaction::Apply { mv },
        (Phase::Playing, EventView::SessionEnd { winner: Some(winner) }) => Reaction::Notify {
            notice: Notice::Won { winner },
        },
        (Phase::Playing, EventView::SessionEnd { winner: None }) => Reaction::Notify {
            notice: Notice::Draw,
        },
        (Phase::Playing, EventView::PeerDisconnected) => Reaction::Notify {
            notice: Notice::PeerLeft,
        },
        _ => Reaction::Ignore,
    }
}

/// The context of a press for the player of seat `side`.
pub open spec fn context_of(
    side: PlayerSlot,
    turn: PlayerSlot,
    occupant: Option<PlayerSlot>,
    modifier: Option<Orientation>,
) -> PointerContext {
    PointerContext { side, turn, occupant, modifier }
}

/// The controller after the pointer went down. Input counts only while
/// the game is on; a move that the press completes joins the outbox.
pub open spec fn after_pointer_down(
    c: ControllerView,
    hit: Option<Hit>,
    turn: PlayerSlot,
    occupant: Option<PlayerSlot>,
    modifier: Option<Orientation>,
) -> ControllerView {
    if c.phase == Phase::Playing {
        let context = context_of(c.side, turn, occupant, modifier);
        ControllerView {
            gesture: after_press(c.gesture, hit, context),
            outbox: match press_move(c.gesture, hit, context) {
                Some(mv) => c.outbox.push(mv),
                None => c.outbox,
            },
            ..c
        }
    } else {
        c
    }
}

/// The move that the press queued.
pub open spec fn pointer_down_move(
    c: ControllerView,
    hit: Option<Hit>,
    turn: PlayerSlot,
    occupant: Option<PlayerSlot>,
    modifier: Option<Orientation>,
) -> Option<Move> {
    if c.phase == Phase::Playing {
        press_move(c.gesture, hit, context_of(c.side, turn, occupant, modifier))
    } else {
        None
    }
}

/// The controller after the pointer went up.
pub open spec fn after_pointer_up(c: ControllerView, hit: Option<Hit>) -> ControllerView {
    if c.phase == Phase::Playing {
        ControllerView {
            gesture: after_release(c.gesture),
            outbox: match release_move(c.gesture, hit) {
                Some(mv) => c.outbox.push(mv),
                None => c.outbox,
            },
            ..c
        }
    } else {
        c
    }
}

/// The move that the release queued.
pub open spec fn pointer_up_move(c: ControllerView, hit: Option<Hit>) -> Option<Move> {
    if c.phase == Phase::Playing {
        release_move(c.gesture, hit)
    } else {
        None
    }
}

/// The owner of the pawn on the square that was hit; `None` for a hit
/// that is on no square.
pub open spec fn hit_owner(
    squares: Map<u8, (u8, u8)>,
    hit: Option<Hit>,
    pawn_count: u8,
    player_count: u8,
) -> Option<PlayerSlot> {
    match hit {
        Some(Hit::Cell(square)) => square_owner(squares, square, pawn_count, player_count),
        _ => None,
    }
}

/// The controller after the channel has answered the offer of its oldest
/// queued move: when the channel took the frame, the move has left the
/// outbox; when it did not, or nothing was queued, nothing changes.
pub open spec fn after_offer(c: ControllerView, taken: bool) -> ControllerView {
    if taken && c.outbox.len() > 0 {
        ControllerView { outbox: c.outbox.drop_first(), ..c }
    } else {
        c
    }
}

/// The controller after the events have arrived, first to last.
pub open spec fn after_events(c: ControllerView, events: Seq<EventView>) -> ControllerView
    decreases events.len(),
{
    if events.len() == 0 {
        c
    } else {
        after_event(after_events(c, events.drop_last()), events.last())
    }
}

/// The events of a list of events with what to do about each.
pub open spec fn received_events(received: Seq<(GameEvent, Reaction)>) -> Seq<EventView> {
    Seq::new(received.len(), |i: int| received[i].0@)
}

/// Whether `after` is the controller `before` once it has taken in the
/// events of `received`, first to last, and each of them stands with
/// what was to do about it when it arrived.
pub open spec fn takes_in(
    before: ControllerView,
    received: Seq<(GameEvent, Reaction)>,
    after: ControllerView,
) -> bool {
    &&& after == after_events(before, received_events(received))
    &&& forall|i: int|
        0 <= i < received.len() ==> (#[trigger] received[i]).1 == reaction_to(
            after_events(before, received_events(received).subrange(0, i)),
            received[i].0@,
        )
}

/// The event that the channel's answer brings: the one that the frame
/// carries under `rulebook`; none when the channel handed over nothing
/// or the frame carries no event.
pub open spec fn arrival(rulebook: Rulebook, frame: Option<Vec<u8>>) -> Option<EventView> {
    match frame {
        Some(bytes) => framed_event(rulebook, bytes@),
        None => None,
    }
}

/// The controller once the `sent` oldest queued moves have left it.
pub open spec fn after_sending(c: ControllerView, sent: int) -> ControllerView {
    ControllerView { outbox: c.outbox.subrange(sent, c.outbox.len() as int), ..c }
}

/// `crossbeam_channel::Sender`, the sending end of a channel. The client
/// hands its frames to the transport through one.
#[verifier::external_type_specification]
#[verifier::external_body]
#[verifier::reject_recursive_types(T)]
pub struct ExSender<T>(crossbeam_channel::Sender<T>);

/// `crossbeam_channel::Receiver`, the receiving end of a channel. The
/// transport hands the frames that arrive to the client through one.
#[verifier::external_type_specification]
#[verifier::external_body]
#[verifier::reject_recursive_types(T)]
pub struct ExReceiver<T>(crossbeam_channel::Receiver<T>);

/// Calls `Sender::try_send`, which does not wait: it hands the frame to
/// the channel, or fails when the channel is full or nobody receives
/// from it any more. Returns whether the channel took the frame. Nothing
/// is claimed about which of the two happens.
#[verifier::external_body]
fn offer_frame(transport: &Sender<Vec<u8>>, frame: Vec<u8>) -> (taken: bool) {
    transport.try_send(frame).is_ok()
}

/// Calls `Receiver::try_recv`, which does not wait: it takes the oldest
/// frame off the channel, or fails when the channel is empty or nobody
/// sends into it any more. Nothing is claimed about what comes out.
#[verifier::external_body]
fn poll_frame(arrivals: &Receiver<Vec<u8>>) -> (frame: Option<Vec<u8>>) {
    arrivals.try_recv().ok()
}

/// Calls `Receiver::len`, which counts the frames that the channel holds
/// at this moment. Nothing is claimed about the count.
#[verifier::external_body]
fn waiting_frames(arrivals: &Receiver<Vec<u8>>) -> (waiting: usize) {
    arrivals.len()
}

/// The player's side of one session.
pub struct ClientController {
    rulebook: Rulebook,
    phase: Phase,
    side: PlayerSlot,
    gesture: Gesture,
    outbox: VecDeque<Move>,
}

impl View for ClientController {
    type V = ControllerView;

    closed spec fn view(&self) -> ControllerView {
        ControllerView {
            rulebook: self.rulebook,
            phase: self.phase,
            side: self.side,
            gesture: self.gesture,
            outbox: self.outbox@,
        }
    }
}

impl ClientController {
    /// A controller for a session under `rulebook`, waiting for the
    /// session to start.
    pub fn new(rulebook: Rulebook) -> (controller: ClientController)
        ensures
            controller@ == (ControllerView {
                rulebook,
                phase: Phase::Handshake,
                side: 0,
                gesture: Gesture { selected: None, half_wall: None },
                outbox: Seq::empty(),
            }),
    {
        ClientController {
            rulebook,
            phase: Phase::Handshake,
            side: 0,
            gesture: Gesture::new(),
            outbox: VecDeque::new(),
        }
    }

    /// How far the client has come.
    pub fn phase(&self) -> (phase: Phase)
        ensures
            phase == self@.phase,
    {
        self.phase
    }

    /// The local player's seat.
    pub fn side(&self) -> (side: PlayerSlot)
        ensures
            side == self@.side,
    {
        self.side
    }

    /// What the player has begun, for drawing it.
    pub fn gesture(&self) -> (gesture: Gesture)
        ensures
            gesture == self@.gesture,
    {
        self.gesture
    }

    /// Takes in an event from the relay and says what to do about it.
    pub fn on_event(&mut self, event: &GameEvent) -> (reaction: Reaction)
        ensures
            final(self)@ == after_event(old(self)@, event@),
            reaction == reaction_to(old(self)@, event@),
    {
        match self.phase {
            Phase::Handshake => match event {
                GameEvent::SessionStart { player_slot, .. } => {
                    self.phase = Phase::Playing;
                    self.side = *player_slot;
                    Reaction::Start { side: *player_slot }
                },
                _ => Reaction::Ignore,
            },
            Phase::Playing => match event {
                GameEvent::MoveApplied { mv } => Reaction::Apply { mv: *mv },
                GameEvent::SessionEnd { winner } => {
                    self.phase = Phase::Ended;
                    match winner {
                        Some(slot) => Reaction::Notify { notice: Notice::Won { winner: *slot } },
                        None => Reaction::Notify { notice: Notice::Draw },
                    }
                },
                GameEvent::PeerDisconnected => {
                    self.phase = Phase::Ended;
                    Reaction::Notify { notice: Notice::PeerLeft }
                },
                GameEvent::SessionStart { .. } => Reaction::Ignore,
            },
            Phase::Ended => Reaction::Ignore,
        }
    }

    /// Takes in a frame from the relay: the event that it carries, if it
    /// carries one, and what to do about it. A frame that carries no
    /// event of this session's rulebook is dropped.
    pub fn on_frame(&mut self, frame: &[u8]) -> (received: Option<(GameEvent, Reaction)>)
        ensures
            match received {
                Some((event, reaction)) => framed_event(old(self)@.rulebook, frame@) == Some(event@)
                    && final(self)@ == after_event(old(self)@, event@) && reaction == reaction_to(
                    old(self)@,
                    event@,
                ),
                None => framed_event(old(self)@.rulebook, frame@) is None && final(self)@ == old(
                    self,
                )@,
            },
    {
        match decode_event(self.rulebook, frame) {
            Some(event) => {
                let reaction = self.on_event(&event);
                Some((event, reaction))
            },
            None => None,
        }
    }

    /// The pointer went down on `hit`, while it is the turn of seat
    /// `turn`; `occupant` is the owner of the pawn on the square that
    /// was hit. Returns the move that the press queued for sending.
    pub fn pointer_down(
        &mut self,
        hit: Option<Hit>,
        turn: PlayerSlot,
        occupant: Option<PlayerSlot>,
        modifier: Option<Orientation>,
    ) -> (queued: Option<Move>)
        ensures
            final(self)@ == after_pointer_down(old(self)@, hit, turn, occupant, modifier),
            queued == pointer_down_move(old(self)@, hit, turn, occupant, modifier),
    {
        match self.phase {
            Phase::Playing => {
                let context = PointerContext { side: self.side, turn, occupant, modifier };
                let sent = self.gesture.pointer_down(hit, &context);
                match sent {
                    Some(mv) => {
                        self.outbox.push_back(mv);
                    },
                    None => {},
                }
                sent
            },
            _ => None,
        }
    }

    /// The pointer went down on `hit`, while it is the turn of seat
    /// `turn` and the pawns stand as `pawns` says, `pawn_count` of them
    /// shared among `player_count` players. Does what `pointer_down`
    /// does, with the owner of the pawn on the square that was hit.
    pub fn pointer_down_on(
        &mut self,
        hit: Option<Hit>,
        turn: PlayerSlot,
        pawns: &BiHashMap<u8, (u8, u8)>,
        pawn_count: u8,
        player_count: u8,
        modifier: Option<Orientation>,
    ) -> (queued: Option<Move>)
        ensures
            final(self)@ == after_pointer_down(
                old(self)@,
                hit,
                turn,
                hit_owner(pawn_squares(*pawns), hit, pawn_count, player_count),
                modifier,
            ),
            queued == pointer_down_move(
                old(self)@,
                hit,
                turn,
                hit_owner(pawn_squares(*pawns), hit, pawn_count, player_count),
                modifier,
            ),
    {
        let occupant = match hit {
            Some(Hit::Cell(square)) => occupant_of(pawns, square, pawn_count, player_count),
            _ => None,
        };
        self.pointer_down(hit, turn, occupant, modifier)
    }

    /// The pointer went up on `hit`. Returns the move that the release
    /// queued for sending.
    pub fn pointer_up(&mut self, hit: Option<Hit>) -> (queued: Option<Move>)
        ensures
            final(self)@ == after_pointer_up(old(self)@, hit),
            queued == pointer_up_move(old(self)@, hit),
    {
        match self.phase {
            Phase::Playing => {
                let sent = self.gesture.pointer_up(hit);
                match sent {
                    Some(mv) => {
                        self.outbox.push_back(mv);
                    },
                    None => {},
                }
                sent
            },
            _ => None,
        }
    }

    /// Takes the oldest queued move off the outbox, as the frame to hand
    /// to the transport; `None` when the outbox is empty.
    pub fn next_frame(&mut self) -> (frame: Option<Vec<u8>>)
        ensures
            old(self)@.outbox.len() == 0 ==> frame is None && final(self)@ == old(self)@,
            old(self)@.outbox.len() > 0 ==> frame is Some && frame->0@ == move_frame(
                old(self)@.rulebook,
                old(self)@.outbox[0],
            ) && final(self)@ == (ControllerView {
                outbox: old(self)@.outbox.drop_first(),
                ..old(self)@
            }),
    {
        match self.outbox.pop_front() {
            Some(mv) => {
                assert(self.outbox@ =~= old(self).outbox@.drop_first());
                Some(encode_move(self.rulebook, &mv))
            },
            None => None,
        }
    }

    /// Empties the outbox: the frames of all queued moves, oldest first,
    /// to hand to the transport in that order.
    pub fn drain_frames(&mut self) -> (frames: Vec<Vec<u8>>)
        ensures
            final(self)@ == (ControllerView { outbox: Seq::empty(), ..old(self)@ }),
            frames@.len() == old(self)@.outbox.len(),
            forall|i: int|
                0 <= i < frames@.len() ==> (#[trigger] frames@[i])@ == move_frame(
                    old(self)@.rulebook,
                    old(self)@.outbox[i],
                ),
    {
        let mut frames: Vec<Vec<u8>> = Vec::new();
        while self.outbox.len() > 0
            invariant
                self.rulebook == old(self).rulebook,
                self.phase == old(self).phase,
                self.side == old(self).side,
                self.gesture == old(self).gesture,
                frames@.len() + self.outbox@.len() == old(self).outbox@.len(),
                self.outbox@ == old(self).outbox@.subrange(
                    frames@.len() as int,
                    old(self).outbox@.len() as int,
                ),
                forall|i: int|
                    0 <= i < frames@.len() ==> (#[trigger] frames@[i])@ == move_frame(
                        old(self).rulebook,
                        old(self).outbox@[i],
                    ),
            decreases self.outbox@.len(),
        {
            match self.next_frame() {
                Some(frame) => {
                    frames.push(frame);
                    assert(self.outbox@ =~= old(self).outbox@.subrange(
                        frames@.len() as int,
                        old(self).outbox@.len() as int,
                    ));
                },
                None => {},
            }
        }
        assert(self.outbox@ =~= Seq::empty());
        frames
    }

    /// Takes note of the channel's answer to the offer of the oldest
    /// queued move: a move whose frame the channel took leaves the outbox.
    /// Returns whether to go on offering: the channel took the frame and
    /// another move is queued.
    pub fn offered(&mut self, taken: bool) -> (more: bool)
        ensures
            final(self)@ == after_offer(old(self)@, taken),
            more == (taken && final(self)@.outbox.len() > 0),
    {
        if taken && self.outbox.len() > 0 {
            self.outbox.pop_front();
            assert(self.outbox@ =~= old(self).outbox@.drop_first());
            self.outbox.len() > 0
        } else {
            false
        }
    }

    /// Hands the queued moves to the transport, oldest first, each as its
    /// frame, for as long as the channel takes them. Returns how many it
    /// took; those have left the outbox, the others stay queued in their
    /// order.
    pub fn flush(&mut self, transport: &Sender<Vec<u8>>) -> (sent: usize)
        ensures
            sent <= old(self)@.outbox.len(),
            final(self)@ == after_sending(old(self)@, sent as int),
    {
        let queued = self.outbox.len();
        let mut sent: usize = 0;
        let mut more = queued > 0;
        assert(self@.outbox =~= after_sending(old(self)@, 0).outbox);
        while more
            invariant
                queued == old(self)@.outbox.len(),
                sent <= queued,
                self@ == after_sending(old(self)@, sent as int),
                more ==> self@.outbox.len() > 0,
            decreases
                    self@.outbox.len() + if more {
                        1nat
                    } else {
                        0nat
                    },
        {
            let frame = encode_move(self.rulebook, &self.outbox[0]);
            let taken = offer_frame(transport, frame);
            let ghost before = self@;
            more = self.offered(taken);
            if taken {
                sent += 1;
                assert(before.outbox.drop_first() =~= old(self)@.outbox.subrange(
                    sent as int,
                    queued as int,
                ));
            }
        }
        sent
    }

    /// Takes the next frame that has arrived, if one has, and handles it
    /// as `on_frame` does. Whatever the channel hands over: either the
    /// controller is as it was, or it has taken in one event, which is
    /// returned with what to do about it.
    pub fn poll(&mut self, arrivals: &Receiver<Vec<u8>>) -> (received: Option<
        (GameEvent, Reaction),
    >)
        ensures
            match received {
                Some((event, reaction)) => final(self)@ == after_event(old(self)@, event@)
                    && reaction == reaction_to(old(self)@, event@),
                None => final(self)@ == old(self)@,
            },
    {
        match poll_frame(arrivals) {
            Some(frame) => self.on_frame(frame.as_slice()),
            None => None,
        }
    }

    /// Takes note of what the channel handed over when it was asked for
    /// the next frame: nothing, and there is nothing more to take; or a
    /// frame, which is handled as `on_frame` handles it, and the event
    /// that it carries joins `received` with what to do about it. A frame
    /// that carries no event is dropped. Returns whether to ask again:
    /// the channel handed over a frame.
    pub fn arrived(
        &mut self,
        frame: Option<Vec<u8>>,
        received: &mut Vec<(GameEvent, Reaction)>,
    ) -> (more: bool)
        ensures
            more == frame is Some,
            match arrival(old(self)@.rulebook, frame) {
                Some(event) => {
                    &&& final(self)@ == after_event(old(self)@, event)
                    &&& final(received)@.len() == old(received)@.len() + 1
                    &&& final(received)@.drop_last() == old(received)@
                    &&& final(received)@.last().0@ == event
                    &&& final(received)@.last().1 == reaction_to(old(self)@, event)
                },
                None => final(self)@ == old(self)@ && final(received)@ == old(received)@,
            },
    {
        match frame {
            None => false,
            Some(bytes) => {
                match self.on_frame(bytes.as_slice()) {
                    Some(pair) => {
                        received.push(pair);
                        assert(received@.drop_last() =~= old(received)@);
                    },
                    None => {},
                }
                true
            },
        }
    }

    /// Takes frames off the channel until it is empty or `limit` frames
    /// have been taken, and handles each as `arrived` does. Returns the
    /// events taken in, in the order of their arrival, each with what to
    /// do about it.
    pub fn take_in(&mut self, arrivals: &Receiver<Vec<u8>>, limit: usize) -> (received: Vec<
        (GameEvent, Reaction),
    >)
        ensures
            received@.len() <= limit,
            takes_in(old(self)@, received@, final(self)@),
    {
        let mut received: Vec<(GameEvent, Reaction)> = Vec::new();
        let mut taken: usize = 0;
        let mut more = true;
        assert(received_events(received@) =~= Seq::empty());
        while more && taken < limit
            invariant
                received@.len() <= taken <= limit,
                takes_in(old(self)@, received@, self@),
            decreases limit - taken,
        {
            let ghost earlier = received@;
            more = self.arrived(poll_frame(arrivals), &mut received);
            taken += 1;
            proof {
                if received@.len() > earlier.len() {
                    let events = received_events(received@);
                    assert(events.drop_last() =~= received_events(earlier));
                    assert forall|i: int| 0 <= i < received@.len() implies (
                    #[trigger] received@[i]).1 == reaction_to(
                        after_events(old(self)@, events.subrange(0, i)),
                        received@[i].0@,
                    ) by {
                        if i < earlier.len() {
                            assert(received@[i] == received@.drop_last()[i]);
                            assert(events.subrange(0, i) =~= received_events(earlier).subrange(
                                0,
                                i,
                            ));
                        } else {
                            assert(events.subrange(0, i) =~= received_events(earlier));
                        }
                    }
                }
            }
        }
        received
    }

    /// Takes in every frame that has arrived: as many frames as the
    /// channel holds when the call begins, as `take_in` takes them.
    pub fn poll_all(&mut self, arrivals: &Receiver<Vec<u8>>) -> (received: Vec<
        (GameEvent, Reaction),
    >)
        ensures
            takes_in(old(self)@, received@, final(self)@),
    {
        let waiting = waiting_frames(arrivals);
        self.take_in(arrivals, waiting)
    }

    /// One tick of the client's loop: first the queued moves go to the
    /// transport, as `flush` sends them; then every frame that has
    /// arrived is taken in, as `poll_all` takes them.
    pub fn tick(&mut self, transport: &Sender<Vec<u8>>, arrivals: &Receiver<Vec<u8>>) -> (received:
        Vec<(GameEvent, Reaction)>)
        ensures
            exists|sent: int|
                0 <= sent <= old(self)@.outbox.len() && takes_in(
                    #[trigger] after_sending(old(self)@, sent),
                    received@,
                    final(self)@,
                ),
    {
        let sent = self.flush(transport);
        let received = self.poll_all(arrivals);
        assert(takes_in(after_sending(old(self)@, sent as int), received@, self@));
        received
    }
}

/// Until the session has started, nothing but `SessionStart` moves the
/// client: every other event is ignored and the handshake goes on, and
/// no input is taken.
pub proof fn law_handshake_waits_for_start(
    c: ControllerView,
    event: EventView,
    hit: Option<Hit>,
    turn: PlayerSlot,
    occupant: Option<PlayerSlot>,
    modifier: Option<Orientation>,
)
    requires
        c.phase == Phase::Handshake,
    ensures
        !(event is SessionStart) ==> after_event(c, event) == c && reaction_to(c, event)
            == Reaction::Ignore,
        event matches EventView::SessionStart { player_slot, .. } ==> after_event(c, event).phase
            == Phase::Playing && after_event(c, event).side == player_slot,
        after_pointer_down(c, hit, turn, occupant, modifier) == c,
        pointer_down_move(c, hit, turn, occupant, modifier) is None,
        after_pointer_up(c, hit) == c,
        pointer_up_move(c, hit) is None,
{
}

/// Once the session has ended, by `SessionEnd` or by `PeerDisconnected`,
/// the client takes no input and no event any more: nothing changes it
/// and it sends no move.
pub proof fn law_nothing_after_the_end(
    c: ControllerView,
    ending: EventView,
    event: EventView,
    hit: Option<Hit>,
    turn: PlayerSlot,
    occupant: Option<PlayerSlot>,
    modifier: Option<Orientation>,
)
    requires
        c.phase == Phase::Playing,
        ending is SessionEnd || ending is PeerDisconnected,
    ensures
        ({
            let ended = after_event(c, ending);
            &&& ended.phase == Phase::Ended
            &&& reaction_to(c, ending) is Notify
            &&& after_event(ended, event) == ended
            &&& reaction_to(ended, event) == Reaction::Ignore
            &&& after_pointer_down(ended, hit, turn, occupant, modifier) == ended
            &&& pointer_down_move(ended, hit, turn, occupant, modifier) is None
            &&& after_pointer_up(ended, hit) == ended
            &&& pointer_up_move(ended, hit) is None
        }),
{
}

} // verus!
