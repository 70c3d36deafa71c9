//! What the players of a session get to see over its lifetime, and in
//! which order.

use crate::agent::AgentView;
use crate::moves::{EventView, Move, PlayerSlot};
use crate::session::{
    fresh_seats, seats_bind, seats_deliver, seats_disconnect, seats_pending, seats_step,
    seats_submit, seats_waiting, verdict_events, Verdict,
};
use vstd::prelude::*;

verus! {

/// One thing that happens to a session.
pub enum Action {
    /// A connection is bound to a seat while the game is in `state`.
    Bind { slot: PlayerSlot, state: Seq<u8> },
    /// A connection puts a move on its seat's queue.
    Submit { slot: PlayerSlot, mv: Move },
    /// The session takes a step; the engine names `turn` and would judge
    /// the move it is handed as `verdict`.
    Step { turn: PlayerSlot, verdict: Verdict },
    /// A connection takes the oldest waiting event off its seat's queue.
    Deliver { slot: PlayerSlot },
    /// The player of a seat leaves.
    Disconnect { slot: PlayerSlot },
}

/// A session together with its past.
pub struct History {
    /// The seats as they are now.
    pub seats: Seq<AgentView>,
    /// The moves that the engine has accepted, in the order it played them.
    pub applied: Seq<Move>,
    /// For each seat, the moves that its connection has put on its queue,
    /// oldest first.
    pub submitted: Seq<Seq<Move>>,
    /// For each seat, the moves that were handed to the engine, oldest first.
    pub handed: Seq<Seq<Move>>,
    /// For each seat, the events that the session has sent it, oldest first.
    pub sent: Seq<Seq<EventView>>,
    /// For each seat, the events that its connection has taken, oldest first.
    pub observed: Seq<Seq<EventView>>,
}

/// What an action sends to each seat of a session.
pub open spec fn action_sends(seats: Seq<AgentView>, action: Action) -> Seq<Seq<EventView>> {
    Seq::new(
        seats.len(),
        |i: int|
            match action {
                Action::Bind { slot, state } => if i == slot as int && !seats[i].bound {
                    seq![EventView::SessionStart { state, player_slot: slot }]
                } else {
                    Seq::empty()
                },
                Action::Step { turn, verdict } => match seats_pending(seats, turn) {
                    Some(mv) => verdict_events(mv, verdict),
                    None => Seq::empty(),
                },
                Action::Disconnect { slot } => if i != slot as int {
                    seq![EventView::PeerDisconnected]
                } else {
                    Seq::empty()
                },
                _ => Seq::empty(),
            },
    )
}

/// A session of `n` seats before anything has happened.
pub open spec fn history_start(n: nat) -> History {
    History {
        seats: fresh_seats(n),
        applied: Seq::empty(),
        submitted: Seq::new(n, |i: int| Seq::empty()),
        handed: Seq::new(n, |i: int| Seq::empty()),
        sent: Seq::new(n, |i: int| Seq::empty()),
        observed: Seq::new(n, |i: int| Seq::empty()),
    }
}

/// The session and its past after one more action.
pub open spec fn history_next(h: History, action: Action) -> History {
    let sent = Seq::new(h.sent.len(), |i: int| h.sent[i] + action_sends(h.seats, action)[i]);
    match action {
        Action::Bind { slot, state } => History {
            seats: seats_bind(h.seats, slot, state),
            sent,
            ..h
        },
        Action::Submit { slot, mv } => History {
            seats: seats_submit(h.seats, slot, mv),
            submitted: if (slot as int) < h.seats.len() {
                h.submitted.update(slot as int, h.submitted[slot as int].push(mv))
            } else {
                h.submitted
            },
            sent,
            ..h
        },
        Action::Step { turn, verdict } => History {
            seats: seats_step(h.seats, turn, verdict),
            applied: match (seats_pending(h.seats, turn), verdict) {
                (Some(mv), Verdict::Accepted { .. }) => h.applied.push(mv),
                _ => h.applied,
            },
            handed: match seats_pending(h.seats, turn) {
                Some(mv) => h.handed.update(turn as int, h.handed[turn as int].push(mv)),
                None => h.handed,
            },
            sent,
            ..h
        },
        Action::Deliver { slot } => History {
            seats: seats_deliver(h.seats, slot),
            observed: match seats_waiting(h.seats, slot) {
                Some(event) => h.observed.update(slot as int, h.observed[slot as int].push(event)),
                None => h.observed,
            },
            sent,
            ..h
        },
        Action::Disconnect { slot } => History {
            seats: seats_disconnect(h.seats, slot),
            sent,
            ..h
        },
    }
}

/// The session and its past after a run of actions, first to last.
pub open spec fn history_after(h: History, actions: Seq<Action>) -> History
    decreases actions.len(),
{
    if actions.len() == 0 {
        h
    } else {
        history_next(history_after(h, actions.drop_last()), actions.last())
    }
}

/// The moves of the `MoveApplied` events among `events`, in their order.
pub open spec fn moves_applied(events: Seq<EventView>) -> Seq<Move>
    decreases events.len(),
{
    if events.len() == 0 {
        Seq::empty()
    } else {
        let earlier = moves_applied(events.drop_last());
        match events.last() {
            EventView::MoveApplied { mv } => earlier.push(mv),
            _ => earlier,
        }
    }
}

/// Every seat has been told, or is about to be told, of exactly the moves
/// that the engine accepted, in the order in which it played them.
pub open spec fn told_in_order(h: History) -> bool {
    &&& h.observed.len() == h.seats.len()
    &&& forall|slot: int|
        0 <= slot < h.seats.len() ==> moves_applied(
            #[trigger] h.observed[slot] + h.seats[slot].events,
        ) == h.applied
}

/// The moves among two runs of events, one after the other, are the moves
/// of the first followed by the moves of the second.
pub proof fn lemma_moves_applied_concat(a: Seq<EventView>, b: Seq<EventView>)
    ensures
        moves_applied(a + b) == moves_applied(a) + moves_applied(b),
    decreases b.len(),
{
    if b.len() == 0 {
        assert(a + b =~= a);
        assert(moves_applied(a) + moves_applied(b) =~= moves_applied(a));
    } else {
        assert((a + b).drop_last() =~= a + b.drop_last());
        assert((a + b).last() == b.last());
        lemma_moves_applied_concat(a, b.drop_last());
        match b.last() {
            EventView::MoveApplied { mv } => {
                assert(moves_applied(a + b) =~= moves_applied(a) + moves_applied(b));
            },
            _ => {},
        }
    }
}

/// The moves among at most two events.
pub proof fn lemma_moves_applied_short(events: Seq<EventView>)
    requires
        events.len() <= 2,
    ensures
        events.len() == 0 ==> moves_applied(events) == Seq::<Move>::empty(),
        events.len() == 1 ==> moves_applied(events) == match events[0] {
            EventView::MoveApplied { mv } => seq![mv],
            _ => Seq::empty(),
        },
        events.len() == 2 && events[0] is MoveApplied && !(events[1] is MoveApplied)
            ==> moves_applied(events) == seq![events[0]->mv],
{
    if events.len() >= 1 {
        let first = events.drop_last();
        if events.len() == 2 {
            assert(first.drop_last().len() == 0);
            assert(moves_applied(first.drop_last()) =~= Seq::empty());
            match first.last() {
                EventView::MoveApplied { mv } => {
                    assert(moves_applied(first) =~= seq![mv]);
                },
                _ => {},
            }
        } else {
            assert(moves_applied(first) =~= Seq::empty());
            match events.last() {
                EventView::MoveApplied { mv } => {
                    assert(moves_applied(events) =~= seq![mv]);
                },
                _ => {},
            }
        }
    }
}

/// One action keeps every seat told in order.
pub proof fn lemma_step_keeps_order(h: History, action: Action)
    requires
        told_in_order(h),
    ensures
        told_in_order(history_next(h, action)),
{
    let next = history_next(h, action);
    assert forall|slot: int| 0 <= slot < next.seats.len() implies moves_applied(
        #[trigger] next.observed[slot] + next.seats[slot].events,
    ) == next.applied by {
        let before = h.observed[slot] + h.seats[slot].events;
        let after = next.observed[slot] + next.seats[slot].events;
        assert(moves_applied(before) == h.applied);
        match action {
            Action::Bind { slot: bound, state } => {
                if after != before {
                    let event = EventView::SessionStart { state, player_slot: bound };
                    assert(after =~= before + seq![event]);
                    lemma_moves_applied_concat(before, seq![event]);
                    lemma_moves_applied_short(seq![event]);
                    assert(moves_applied(before) + Seq::<Move>::empty() =~= moves_applied(before));
                }
            },
            Action::Submit { .. } => {
                assert(after =~= before);
            },
            Action::Step { turn, verdict } => {
                match seats_pending(h.seats, turn) {
                    None => {},
                    Some(mv) => {
                        let events = verdict_events(mv, verdict);
                        assert(after =~= before + events);
                        lemma_moves_applied_concat(before, events);
                        lemma_moves_applied_short(events);
                        match verdict {
                            Verdict::Rejected => {
                                assert(h.applied + Seq::<Move>::empty() =~= h.applied);
                            },
                            Verdict::Accepted { .. } => {
                                assert(h.applied + seq![mv] =~= h.applied.push(mv));
                            },
                        }
                    },
                }
            },
            Action::Deliver { .. } => {
                assert(after =~= before);
            },
            Action::Disconnect { slot: gone } => {
                if slot != gone as int {
                    let event = EventView::PeerDisconnected;
                    assert(after =~= before + seq![event]);
                    lemma_moves_applied_concat(before, seq![event]);
                    lemma_moves_applied_short(seq![event]);
                    assert(moves_applied(before) + Seq::<Move>::empty() =~= moves_applied(before));
                } else {
                    assert(after =~= before);
                }
            },
        }
    }
}

/// Whatever happens to a session, in whatever order: the `MoveApplied`
/// events that a seat's connection has taken, followed by those still
/// waiting for it, carry exactly the moves that the engine accepted, in
/// the order in which it played them. So what a player has seen so far is
/// always the beginning of that one sequence, the same for every player.
pub proof fn law_broadcast_order(n: nat, actions: Seq<Action>, slot: PlayerSlot)
    requires
        (slot as nat) < n,
    ensures
        ({
            let h = history_after(history_start(n), actions);
            &&& h.seats.len() == n
            &&& h.observed.len() == n
            &&& moves_applied(h.observed[slot as int] + h.seats[slot as int].events) == h.applied
            &&& moves_applied(h.observed[slot as int]).is_prefix_of(h.applied)
        }),
{
    lemma_run_keeps_order(n, actions);
    let h = history_after(history_start(n), actions);
    let seen = h.observed[slot as int];
    let waiting = h.seats[slot as int].events;
    assert(moves_applied(seen + waiting) == h.applied);
    lemma_moves_applied_concat(seen, waiting);
}

/// A run of actions from the start keeps every seat told in order, and
/// keeps the number of seats.
pub proof fn lemma_run_keeps_order(n: nat, actions: Seq<Action>)
    ensures
        told_in_order(history_after(history_start(n), actions)),
        history_after(history_start(n), actions).seats.len() == n,
    decreases actions.len(),
{
    let start = history_start(n);
    if actions.len() == 0 {
        assert forall|slot: int| 0 <= slot < start.seats.len() implies moves_applied(
            #[trigger] start.observed[slot] + start.seats[slot].events,
        ) == start.applied by {
            assert(start.observed[slot] + start.seats[slot].events =~= Seq::empty());
        }
    } else {
        lemma_run_keeps_order(n, actions.drop_last());
        lemma_step_keeps_order(history_after(start, actions.drop_last()), actions.last());
    }
}

/// No event is lost and none is handed out twice: for every seat, what
/// its connection has taken, followed by what still waits for it, is
/// what the session has sent it.
pub open spec fn nothing_lost(h: History) -> bool {
    &&& h.sent.len() == h.seats.len()
    &&& h.observed.len() == h.seats.len()
    &&& forall|slot: int|
        0 <= slot < h.seats.len() ==> #[trigger] h.observed[slot] + h.seats[slot].events
            == h.sent[slot]
}

/// One action loses no event and hands none out twice.
pub proof fn lemma_step_loses_nothing(h: History, action: Action)
    requires
        nothing_lost(h),
    ensures
        nothing_lost(history_next(h, action)),
{
    let next = history_next(h, action);
    assert forall|slot: int| 0 <= slot < next.seats.len() implies #[trigger] next.observed[slot]
        + next.seats[slot].events == next.sent[slot] by {
        assert(h.observed[slot] + h.seats[slot].events == h.sent[slot]);
        assert(next.observed[slot] + next.seats[slot].events =~= h.observed[slot]
            + h.seats[slot].events + action_sends(h.seats, action)[slot]);
    }
}

/// A run of actions from the start loses no event and hands none out twice.
pub proof fn lemma_run_loses_nothing(n: nat, actions: Seq<Action>)
    ensures
        nothing_lost(history_after(history_start(n), actions)),
        history_after(history_start(n), actions).seats.len() == n,
    decreases actions.len(),
{
    let start = history_start(n);
    if actions.len() == 0 {
        assert forall|slot: int| 0 <= slot < start.seats.len() implies (
        #[trigger] start.observed[slot]) + start.seats[slot].events == start.sent[slot] by {
            assert(start.observed[slot] + start.seats[slot].events =~= start.sent[slot]);
        }
    } else {
        lemma_run_loses_nothing(n, actions.drop_last());
        lemma_step_loses_nothing(history_after(start, actions.drop_last()), actions.last());
    }
}

/// Whatever happens to a session, in whatever order: each seat's
/// connection is handed the events that the session sent to that seat,
/// in the order in which it sent them, each one once and none left out.
/// What the connection has taken so far is the beginning of what was
/// sent, and the rest waits in the same order.
pub proof fn law_events_delivered_once(n: nat, actions: Seq<Action>, slot: PlayerSlot)
    requires
        (slot as nat) < n,
    ensures
        ({
            let h = history_after(history_start(n), actions);
            &&& h.seats.len() == n
            &&& h.observed[slot as int] + h.seats[slot as int].events == h.sent[slot as int]
            &&& h.observed[slot as int].is_prefix_of(h.sent[slot as int])
        }),
{
    lemma_run_loses_nothing(n, actions);
    let h = history_after(history_start(n), actions);
    assert(h.observed[slot as int] + h.seats[slot as int].events == h.sent[slot as int]);
}

/// No move is lost and none is handed to the engine twice: for every
/// seat, the moves handed to the engine, followed by those that still
/// wait, are the moves that its connection has put on the queue.
pub open spec fn no_move_lost(h: History) -> bool {
    &&& h.submitted.len() == h.seats.len()
    &&& h.handed.len() == h.seats.len()
    &&& forall|slot: int|
        0 <= slot < h.seats.len() ==> #[trigger] h.handed[slot] + h.seats[slot].moves
            == h.submitted[slot]
}

/// One action loses no move and hands none over twice.
pub proof fn lemma_step_loses_no_move(h: History, action: Action)
    requires
        no_move_lost(h),
    ensures
        no_move_lost(history_next(h, action)),
{
    let next = history_next(h, action);
    assert forall|slot: int| 0 <= slot < next.seats.len() implies #[trigger] next.handed[slot]
        + next.seats[slot].moves == next.submitted[slot] by {
        assert(h.handed[slot] + h.seats[slot].moves == h.submitted[slot]);
        match action {
            Action::Submit { slot: from, mv } => {
                if slot == from as int {
                    assert(next.handed[slot] + next.seats[slot].moves =~= (h.handed[slot]
                        + h.seats[slot].moves).push(mv));
                }
            },
            Action::Step { .. } => {
                assert(next.handed[slot] + next.seats[slot].moves =~= h.handed[slot]
                    + h.seats[slot].moves);
            },
            _ => {
                assert(next.seats[slot].moves == h.seats[slot].moves);
            },
        }
    }
}

/// A run of actions from the start loses no move and hands none over twice.
pub proof fn lemma_run_loses_no_move(n: nat, actions: Seq<Action>)
    ensures
        no_move_lost(history_after(history_start(n), actions)),
        history_after(history_start(n), actions).seats.len() == n,
    decreases actions.len(),
{
    let start = history_start(n);
    if actions.len() == 0 {
        assert forall|slot: int| 0 <= slot < start.seats.len() implies #[trigger] start.handed[slot]
            + start.seats[slot].moves == start.submitted[slot] by {
            assert(start.handed[slot] + start.seats[slot].moves =~= start.submitted[slot]);
        }
    } else {
        lemma_run_loses_no_move(n, actions.drop_last());
        lemma_step_loses_no_move(history_after(start, actions.drop_last()), actions.last());
    }
}

/// Whatever happens to a session, in whatever order: the engine is handed
/// each seat's moves in the order in which the seat's connection sent
/// them, each one once at most. What it has been handed so far is the
/// beginning of what was sent, and the rest waits in the same order.
pub proof fn law_moves_handed_over_once(n: nat, actions: Seq<Action>, slot: PlayerSlot)
    requires
        (slot as nat) < n,
    ensures
        ({
            let h = history_after(history_start(n), actions);
            &&& h.seats.len() == n
            &&& h.handed[slot as int] + h.seats[slot as int].moves == h.submitted[slot as int]
            &&& h.handed[slot as int].is_prefix_of(h.submitted[slot as int])
        }),
{
    lemma_run_loses_no_move(n, actions);
    let h = history_after(history_start(n), actions);
    assert(h.handed[slot as int] + h.seats[slot as int].moves == h.submitted[slot as int]);
}

} // verus!
