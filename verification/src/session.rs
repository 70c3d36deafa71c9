//! One session: a rules engine and the seats of its players, advanced one
//! move at a time.

use crate::agent::{AgentCore, AgentView};
use crate::moves::{EventView, GameEvent, Move, MoveResult, PlayerSlot, Winner};
use crate::rulebook::{rulebook_seats, Rulebook};
use vstd::prelude::*;

verus! {

/// The engine's answer to a move that the rules do not allow.
#[derive(Clone, Copy, Debug, PartialEq, Eq, Structural)]
pub struct IllegalMove;

/// The rules of one game, as far as a session needs them. The session asks
/// whose turn it is, hands over that player's move, and asks whether the
/// game is over. It assumes nothing about the answers.
pub trait RulesEngine {
    /// The seat whose turn it is.
    fn turn_of(&self) -> PlayerSlot;

    /// Plays `mv` for the seat whose turn it is, or turns it down and leaves
    /// the game as it was.
    fn apply_move(&mut self, mv: &Move) -> Result<(), IllegalMove>;

    /// `None` while the game goes on; once it is over, how it ended.
    fn is_terminal(&self) -> Option<Winner>;

    /// The state of the game as bytes, for a player who joins now.
    fn snapshot(&self) -> Vec<u8>;
}

/// What the engine said of one move.
#[derive(Clone, Copy, Debug, PartialEq, Eq, Structural)]
pub enum Verdict {
    /// The move is illegal; the game is as it was.
    Rejected,
    /// The move was played; `outcome` is `Some` when it ended the game.
    Accepted { outcome: Option<Winner> },
}

/// A session with `n` seats that nobody has touched.
pub open spec fn fresh_seats(n: nat) -> Seq<AgentView> {
    Seq::new(n, |i: int| AgentView { moves: Seq::empty(), events: Seq::empty(), bound: false })
}

/// The seats after `slot`'s connection has sent `mv`. A slot that the
/// session does not have changes nothing.
pub open spec fn seats_submit(seats: Seq<AgentView>, slot: PlayerSlot, mv: Move) -> Seq<AgentView> {
    if (slot as int) < seats.len() {
        seats.update(
            slot as int,
            AgentView { moves: seats[slot as int].moves.push(mv), ..seats[slot as int] },
        )
    } else {
        seats
    }
}

/// The oldest move that seat `turn` has waiting, if any.
pub open spec fn seats_pending(seats: Seq<AgentView>, turn: PlayerSlot) -> Option<Move> {
    if (turn as int) < seats.len() && seats[turn as int].moves.len() > 0 {
        Some(seats[turn as int].moves[0])
    } else {
        None
    }
}

/// The seats after the oldest waiting move of seat `turn` has been taken.
pub open spec fn seats_take(seats: Seq<AgentView>, turn: PlayerSlot) -> Seq<AgentView> {
    if seats_pending(seats, turn) is Some {
        seats.update(
            turn as int,
            AgentView { moves: seats[turn as int].moves.drop_first(), ..seats[turn as int] },
        )
    } else {
        seats
    }
}

/// The seats after `events` have been sent to every one of them.
pub open spec fn seats_broadcast(seats: Seq<AgentView>, events: Seq<EventView>) -> Seq<AgentView> {
    Seq::new(
        seats.len(),
        |i: int| AgentView { events: seats[i].events + events, ..seats[i] },
    )
}

/// What every player is told once the engine has judged `mv`: nothing of a
/// rejected move; of an accepted one the move, and then the end of the
/// game if the move ended it.
pub open spec fn verdict_events(mv: Move, verdict: Verdict) -> Seq<EventView> {
    match verdict {
        Verdict::Rejected => Seq::empty(),
        Verdict::Accepted { outcome: None } => seq![EventView::MoveApplied { mv }],
        Verdict::Accepted { outcome: Some(winner) } => seq![
            EventView::MoveApplied { mv },
            EventView::SessionEnd { winner },
        ],
    }
}

/// Whether the session is over after a move with this verdict.
pub open spec fn verdict_result(verdict: Verdict) -> MoveResult {
    match verdict {
        Verdict::Accepted { outcome: Some(_) } => MoveResult::Terminated,
        _ => MoveResult::Continue,
    }
}

/// The seats after one step in which the engine names `turn` and would
/// judge the move it is handed as `verdict`: without a waiting move of
/// that seat nothing changes; else the move leaves its queue and every
/// seat is told what the verdict calls for.
pub open spec fn seats_step(seats: Seq<AgentView>, turn: PlayerSlot, verdict: Verdict) -> Seq<
    AgentView,
> {
    match seats_pending(seats, turn) {
        None => seats,
        Some(mv) => seats_broadcast(seats_take(seats, turn), verdict_events(mv, verdict)),
    }
}

/// What that step returns.
pub open spec fn step_result(
    seats: Seq<AgentView>,
    turn: PlayerSlot,
    verdict: Verdict,
) -> MoveResult {
    match seats_pending(seats, turn) {
        None => MoveResult::Continue,
        Some(_) => verdict_result(verdict),
    }
}

/// The seats after a connection has been bound to `slot` while the game
/// is in `state`: the seat is told so, once. A seat that is already bound,
/// or that the session does not have, changes nothing. What was sent to
/// the seat before it was bound stays ahead of `SessionStart` on its
/// queue; the state already holds those moves, and a client in its
/// handshake passes over them.
pub open spec fn seats_bind(seats: Seq<AgentView>, slot: PlayerSlot, state: Seq<u8>) -> Seq<
    AgentView,
> {
    if (slot as int) < seats.len() && !seats[slot as int].bound {
        seats.update(
            slot as int,
            AgentView {
                events: seats[slot as int].events.push(
                    EventView::SessionStart { state, player_slot: slot },
                ),
                bound: true,
                ..seats[slot as int]
            },
        )
    } else {
        seats
    }
}

/// The seats after the player in `slot` has left: every other seat is
/// told so, once.
pub open spec fn seats_disconnect(seats: Seq<AgentView>, slot: PlayerSlot) -> Seq<AgentView> {
    Seq::new(
        seats.len(),
        |i: int|
            if i == slot as int {
                seats[i]
            } else {
                AgentView { events: seats[i].events.push(EventView::PeerDisconnected), ..seats[i] }
            },
    )
}

/// The oldest event that seat `slot` has waiting, if any.
pub open spec fn seats_waiting(seats: Seq<AgentView>, slot: PlayerSlot) -> Option<EventView> {
    if (slot as int) < seats.len() && seats[slot as int].events.len() > 0 {
        Some(seats[slot as int].events[0])
    } else {
        None
    }
}

/// The seats after the oldest waiting event of seat `slot` has been taken.
pub open spec fn seats_deliver(seats: Seq<AgentView>, slot: PlayerSlot) -> Seq<AgentView> {
    if seats_waiting(seats, slot) is Some {
        seats.update(
            slot as int,
            AgentView { events: seats[slot as int].events.drop_first(), ..seats[slot as int] },
        )
    } else {
        seats
    }
}

/// The seats after every waiting event of seat `slot` has been taken.
pub open spec fn seats_drained(seats: Seq<AgentView>, slot: PlayerSlot) -> Seq<AgentView> {
    if (slot as int) < seats.len() {
        seats.update(slot as int, AgentView { events: Seq::empty(), ..seats[slot as int] })
    } else {
        seats
    }
}

/// The events that wait for seat `slot`, oldest first.
pub open spec fn seats_backlog(seats: Seq<AgentView>, slot: PlayerSlot) -> Seq<EventView> {
    if (slot as int) < seats.len() {
        seats[slot as int].events
    } else {
        Seq::empty()
    }
}

/// The seats of one session: one `AgentCore` for each player that the
/// rulebook asks for, indexed by slot.
struct Seating {
    rulebook: Rulebook,
    seats: Vec<AgentCore>,
}

impl Seating {
    #[verifier::type_invariant]
    spec fn seated(&self) -> bool {
        self.seats@.len() == rulebook_seats(self.rulebook)
    }
}

/// One session: the engine and the seats of its players.
pub struct SessionDriver<E: RulesEngine> {
    engine: E,
    seating: Seating,
}

/// The seats of a list of `AgentCore`s as mathematical values.
pub open spec fn seat_views(seats: Seq<AgentCore>) -> Seq<AgentView> {
    Seq::new(seats.len(), |i: int| seats[i]@)
}

impl<E: RulesEngine> View for SessionDriver<E> {
    type V = Seq<AgentView>;

    /// The seats, indexed by slot.
    closed spec fn view(&self) -> Seq<AgentView> {
        seat_views(self.seating.seats@)
    }
}

impl<E: RulesEngine> SessionDriver<E> {
    /// The engine that the session holds.
    pub closed spec fn engine_state(&self) -> E {
        self.engine
    }

    /// The rulebook that the session is played under.
    pub closed spec fn played_under(&self) -> Rulebook {
        self.seating.rulebook
    }

    /// A session under `rulebook` that owns `engine`, with one untouched
    /// seat for each player that the rulebook asks for.
    pub fn new(engine: E, rulebook: Rulebook) -> (driver: SessionDriver<E>)
        ensures
            driver@ == fresh_seats(rulebook_seats(rulebook)),
            driver.engine_state() == engine,
            driver.played_under() == rulebook,
    {
        let n = rulebook.seats();
        let mut seats: Vec<AgentCore> = Vec::new();
        let mut i: u8 = 0;
        while i < n
            invariant
                i <= n,
                seats@.len() == i,
                forall|j: int| 0 <= j < i ==> (#[trigger] seats@[j])@ == fresh_seats(n as nat)[j],
            decreases n - i,
        {
            seats.push(AgentCore::new());
            i += 1;
        }
        assert(seat_views(seats@) =~= fresh_seats(n as nat));
        SessionDriver { engine, seating: Seating { rulebook, seats } }
    }

    /// The rulebook that the session is played under.
    pub fn rulebook(&self) -> (rulebook: Rulebook)
        ensures
            rulebook == self.played_under(),
    {
        self.seating.rulebook
    }

    /// The engine, to read the game from.
    pub fn engine(&self) -> (engine: &E)
        ensures
            *engine == self.engine_state(),
    {
        &self.engine
    }

    /// The number of seats.
    pub fn seat_count(&self) -> (n: u8)
        ensures
            n == self@.len(),
            n == rulebook_seats(self.played_under()),
    {
        proof {
            use_type_invariant(&self.seating);
        }
        self.seating.rulebook.seats()
    }

    /// Puts `mv` on the move queue of seat `slot`, as its connection does
    /// for every move it receives. Returns whether the session has that seat;
    /// if not, nothing changes.
    pub fn submit(&mut self, slot: PlayerSlot, mv: Move) -> (known: bool)
        ensures
            known == ((slot as int) < old(self)@.len()),
            final(self)@ == seats_submit(old(self)@, slot, mv),
            final(self).engine_state() == old(self).engine_state(),
            final(self).played_under() == old(self).played_under(),
    {
        proof {
            use_type_invariant(&self.seating);
        }
        if (slot as usize) < self.seating.seats.len() {
            self.seating.seats[slot as usize].send_move(mv);
            assert(self@ =~= seats_submit(old(self)@, slot, mv));
            true
        } else {
            false
        }
    }

    /// Takes the oldest waiting move of seat `turn` off its queue, without
    /// waiting for one: `None`, and no change, when that seat has sent
    /// nothing or the session has no such seat.
    pub fn take_move(&mut self, turn: PlayerSlot) -> (taken: Option<Move>)
        ensures
            taken == seats_pending(old(self)@, turn),
            final(self)@ == seats_take(old(self)@, turn),
            final(self).engine_state() == old(self).engine_state(),
            final(self).played_under() == old(self).played_under(),
    {
        proof {
            use_type_invariant(&self.seating);
        }
        if (turn as usize) < self.seating.seats.len() {
            let taken = self.seating.seats[turn as usize].try_recv_move();
            assert(self@ =~= seats_take(old(self)@, turn));
            taken
        } else {
            None
        }
    }

    /// Sends a copy of `event` to every seat, in the order of the slots.
    fn tell_all(&mut self, event: &GameEvent)
        ensures
            final(self)@ == seats_broadcast(old(self)@, seq![event@]),
            final(self).engine_state() == old(self).engine_state(),
            final(self).played_under() == old(self).played_under(),
    {
        proof {
            use_type_invariant(&self.seating);
        }
        let n = self.seating.seats.len();
        let mut i: usize = 0;
        while i < n
            invariant
                i <= n,
                n == self.seating.seats@.len(),
                n == old(self).seating.seats@.len(),
                self.engine == old(self).engine,
                self.seating.rulebook == old(self).seating.rulebook,
                n == rulebook_seats(self.seating.rulebook),
                forall|j: int|
                    0 <= j < i ==> (#[trigger] self.seating.seats@[j])@ == (AgentView {
                        events: old(self).seating.seats@[j]@.events.push(event@),
                        ..old(self).seating.seats@[j]@
                    }),
                forall|j: int|
                    i <= j < n ==> #[trigger] self.seating.seats@[j] == old(self).seating.seats@[j],
            decreases n - i,
        {
            self.seating.seats[i].send_event(event.duplicate());
            i += 1;
        }
        assert(self@ =~= seats_broadcast(old(self)@, seq![event@])) by {
            assert forall|j: int| 0 <= j < n implies self@[j] == seats_broadcast(
                old(self)@,
                seq![event@],
            )[j] by {
                assert(old(self)@[j].events + seq![event@] =~= old(self)@[j].events.push(event@));
            }
        }
    }

    /// Tells every seat what the engine's verdict on `mv` calls for: nothing
    /// of a rejected move; of an accepted one `MoveApplied`, and after it
    /// `SessionEnd` if the move ended the game. Every seat receives the same
    /// events in the same order. Returns `Terminated` exactly when the game
    /// is over.
    pub fn settle(&mut self, mv: Move, verdict: Verdict) -> (result: MoveResult)
        ensures
            final(self)@ == seats_broadcast(old(self)@, verdict_events(mv, verdict)),
            result == verdict_result(verdict),
            final(self).engine_state() == old(self).engine_state(),
            final(self).played_under() == old(self).played_under(),
    {
        match verdict {
            Verdict::Rejected => {
                assert(self@ =~= seats_broadcast(old(self)@, verdict_events(mv, verdict)));
                MoveResult::Continue
            },
            Verdict::Accepted { outcome } => {
                self.tell_all(&GameEvent::MoveApplied { mv });
                match outcome {
                    None => MoveResult::Continue,
                    Some(winner) => {
                        let ghost told = self@;
                        self.tell_all(&GameEvent::SessionEnd { winner });
                        assert(self@ =~= seats_broadcast(old(self)@, verdict_events(mv, verdict)))
                            by {
                            assert forall|j: int| 0 <= j < self@.len() implies self@[j].events
                                == old(self)@[j].events + verdict_events(mv, verdict) by {
                                assert(told[j].events + seq![EventView::SessionEnd { winner }]
                                    =~= old(self)@[j].events + verdict_events(mv, verdict));
                            }
                        }
                        MoveResult::Terminated
                    },
                }
            },
        }
    }

    /// Hands `mv` to the engine and reports what it said.
    fn judge(&mut self, mv: &Move) -> (verdict: Verdict)
        ensures
            final(self)@ == old(self)@,
            final(self).played_under() == old(self).played_under(),
    {
        match self.engine.apply_move(mv) {
            Ok(()) => Verdict::Accepted { outcome: self.engine.is_terminal() },
            Err(_) => Verdict::Rejected,
        }
    }

    /// One step of the session, given the seat that the engine names as the
    /// one to move. If that seat has no move waiting, nothing happens: the
    /// engine is not touched and no seat is told anything. Else its oldest
    /// move is handed to the engine, which decides the rest: for some
    /// verdict of the engine, the seats are as `seats_step` says and the
    /// result as `step_result` says.
    pub fn step_for(&mut self, turn: PlayerSlot) -> (result: MoveResult)
        ensures
            exists|verdict: Verdict|
                final(self)@ == seats_step(old(self)@, turn, verdict) && result == step_result(
                    old(self)@,
                    turn,
                    verdict,
                ),
            seats_pending(old(self)@, turn) is None ==> final(self).engine_state() == old(
                self,
            ).engine_state() && final(self)@ == old(self)@ && result == MoveResult::Continue,
            final(self).played_under() == old(self).played_under(),
    {
        match self.take_move(turn) {
            None => {
                assert(self@ == seats_step(old(self)@, turn, Verdict::Rejected));
                MoveResult::Continue
            },
            Some(mv) => {
                let verdict = self.judge(&mv);
                let result = self.settle(mv, verdict);
                assert(self@ == seats_step(old(self)@, turn, verdict));
                result
            },
        }
    }

    /// One step of the session: asks the engine whose turn it is and
    /// advances as `step_for` does for that seat. So for some seat and
    /// some verdict of the engine the seats are as `seats_step` says; and
    /// when no seat has a move waiting, nothing happens at all.
    pub fn step(&mut self) -> (result: MoveResult)
        ensures
            exists|turn: PlayerSlot, verdict: Verdict|
                {
                    &&& final(self)@ == seats_step(old(self)@, turn, verdict)
                    &&& result == step_result(old(self)@, turn, verdict)
                    &&& seats_pending(old(self)@, turn) is None ==> final(self).engine_state()
                        == old(self).engine_state()
                },
            (forall|slot: PlayerSlot| seats_pending(old(self)@, slot) is None) ==> {
                &&& final(self)@ == old(self)@
                &&& final(self).engine_state() == old(self).engine_state()
                &&& result == MoveResult::Continue
            },
            final(self).played_under() == old(self).played_under(),
    {
        let turn = self.engine.turn_of();
        let result = self.step_for(turn);
        proof {
            let verdict = choose|verdict: Verdict|
                self@ == seats_step(old(self)@, turn, verdict) && result == step_result(
                    old(self)@,
                    turn,
                    verdict,
                );
            assert(self@ == seats_step(old(self)@, turn, verdict));
        }
        result
    }

    /// Binds a connection to seat `slot` while the game is in `state`: the
    /// seat is sent `SessionStart` with that state. Returns whether it was
    /// sent; a seat that is already bound, or that the session does not
    /// have, is sent nothing.
    pub fn announce(&mut self, slot: PlayerSlot, state: Vec<u8>) -> (sent: bool)
        ensures
            sent == ((slot as int) < old(self)@.len() && !old(self)@[slot as int].bound),
            final(self)@ == seats_bind(old(self)@, slot, state@),
            final(self).engine_state() == old(self).engine_state(),
            final(self).played_under() == old(self).played_under(),
    {
        proof {
            use_type_invariant(&self.seating);
        }
        let at = slot as usize;
        if at < self.seating.seats.len() && !self.seating.seats[at].is_bound() {
            self.seating.seats[at].send_event(GameEvent::SessionStart { state, player_slot: slot });
            self.seating.seats[at].mark_bound();
            assert(self@ =~= seats_bind(old(self)@, slot, state@));
            true
        } else {
            false
        }
    }

    /// Binds a connection to seat `slot`: the seat is sent `SessionStart`
    /// with the engine's snapshot of this moment, whatever it holds.
    /// Returns whether it was sent, as `announce` does.
    pub fn bind(&mut self, slot: PlayerSlot) -> (sent: bool)
        ensures
            sent == ((slot as int) < old(self)@.len() && !old(self)@[slot as int].bound),
            exists|state: Seq<u8>| final(self)@ == seats_bind(old(self)@, slot, state),
            final(self).engine_state() == old(self).engine_state(),
            final(self).played_under() == old(self).played_under(),
    {
        let state = self.engine.snapshot();
        let ghost bytes = state@;
        let sent = self.announce(slot, state);
        assert(self@ == seats_bind(old(self)@, slot, bytes));
        sent
    }

    /// Records that the player in `slot` has left: every other seat is
    /// sent `PeerDisconnected`, once; the seat itself is sent nothing.
    pub fn disconnect(&mut self, slot: PlayerSlot)
        ensures
            final(self)@ == seats_disconnect(old(self)@, slot),
            final(self).engine_state() == old(self).engine_state(),
            final(self).played_under() == old(self).played_under(),
    {
        proof {
            use_type_invariant(&self.seating);
        }
        let n = self.seating.seats.len();
        let mut i: usize = 0;
        while i < n
            invariant
                i <= n,
                n == self.seating.seats@.len(),
                n == old(self).seating.seats@.len(),
                self.engine == old(self).engine,
                self.seating.rulebook == old(self).seating.rulebook,
                n == rulebook_seats(self.seating.rulebook),
                forall|j: int|
                    0 <= j < i ==> (#[trigger] self.seating.seats@[j])@ == seats_disconnect(
                        old(self)@,
                        slot,
                    )[j],
                forall|j: int|
                    i <= j < n ==> #[trigger] self.seating.seats@[j] == old(self).seating.seats@[j],
            decreases n - i,
        {
            if i != slot as usize {
                self.seating.seats[i].send_event(GameEvent::PeerDisconnected);
            }
            i += 1;
        }
        assert(self@ =~= seats_disconnect(old(self)@, slot));
    }

    /// Takes the oldest waiting event of seat `slot` off its queue, without
    /// waiting for one: `None`, and no change, when nothing waits or the
    /// session has no such seat.
    pub fn next_event(&mut self, slot: PlayerSlot) -> (taken: Option<GameEvent>)
        ensures
            match taken {
                Some(event) => seats_waiting(old(self)@, slot) == Some(event@),
                None => seats_waiting(old(self)@, slot) is None,
            },
            final(self)@ == seats_deliver(old(self)@, slot),
            final(self).engine_state() == old(self).engine_state(),
            final(self).played_under() == old(self).played_under(),
    {
        proof {
            use_type_invariant(&self.seating);
        }
        if (slot as usize) < self.seating.seats.len() {
            let taken = self.seating.seats[slot as usize].try_recv_event();
            assert(self@ =~= seats_deliver(old(self)@, slot));
            taken
        } else {
            None
        }
    }
}

/// A move sent by a player whose turn it is not waits: the step that
/// follows does what it would have done without that move, tells the
/// players what it would have told them, and leaves the move on its
/// queue. When the player whose turn it is has sent nothing, that step
/// changes nothing at all: no player is told anything, whatever the
/// engine would say.
pub proof fn law_out_of_turn_move_waits(
    seats: Seq<AgentView>,
    slot: PlayerSlot,
    turn: PlayerSlot,
    mv: Move,
    verdict: Verdict,
)
    requires
        slot != turn,
    ensures
        seats_step(seats_submit(seats, slot, mv), turn, verdict) == seats_submit(
            seats_step(seats, turn, verdict),
            slot,
            mv,
        ),
        step_result(seats_submit(seats, slot, mv), turn, verdict) == step_result(
            seats,
            turn,
            verdict,
        ),
        seats_pending(seats, turn) is None ==> {
            &&& seats_step(seats_submit(seats, slot, mv), turn, verdict) == seats_submit(
                seats,
                slot,
                mv,
            )
            &&& step_result(seats_submit(seats, slot, mv), turn, verdict) == MoveResult::Continue
        },
{
    let sent = seats_submit(seats, slot, mv);
    assert(seats_pending(sent, turn) == seats_pending(seats, turn));
    assert(seats_step(sent, turn, verdict) =~= seats_submit(
        seats_step(seats, turn, verdict),
        slot,
        mv,
    ));
}

/// When a player leaves, every other player is told so exactly once, and
/// the one who left is told nothing: each other seat's queue of events
/// grows by one `PeerDisconnected` at its end, and nothing else changes.
/// In a session of two, the one remaining player is told once.
pub proof fn law_disconnect_tells_peers_once(seats: Seq<AgentView>, gone: PlayerSlot, other: int)
    requires
        0 <= other < seats.len(),
    ensures
        seats_disconnect(seats, gone).len() == seats.len(),
        other != gone ==> seats_disconnect(seats, gone)[other] == (AgentView {
            events: seats[other].events.push(EventView::PeerDisconnected),
            ..seats[other]
        }),
        other == gone ==> seats_disconnect(seats, gone)[other] == seats[other],
{
}

} // verus!
