//! The pair of queues that stands between one seat and its connection.

use crate::moves::{EventView, GameEvent, Move};
use std::collections::VecDeque;
use vstd::prelude::*;

verus! {

/// One seat's pair of queues: the moves that its connection has sent and
/// the session has not yet taken, and the events that the session has sent
/// and the connection has not yet taken. Both are first in, first out, and
/// neither operation waits.
pub struct AgentCore {
    moves: VecDeque<Move>,
    events: VecDeque<GameEvent>,
    bound: bool,
}

/// An `AgentCore` as a mathematical value.
pub struct AgentView {
    /// The moves waiting for the session, oldest first.
    pub moves: Seq<Move>,
    /// The events waiting for the connection, oldest first.
    pub events: Seq<EventView>,
    /// Whether a connection has been bound to the seat.
    pub bound: bool,
}

/// The views of a queue of events, in the queue's order.
pub open spec fn event_views(events: Seq<GameEvent>) -> Seq<EventView> {
    Seq::new(events.len(), |i: int| events[i]@)
}

impl View for AgentCore {
    type V = AgentView;

    closed spec fn view(&self) -> AgentView {
        AgentView { moves: self.moves@, events: event_views(self.events@), bound: self.bound }
    }
}

impl AgentCore {
    /// A seat with both queues empty and no connection bound to it.
    pub fn new() -> (core: AgentCore)
        ensures
            core@ == (AgentView { moves: Seq::empty(), events: Seq::empty(), bound: false }),
    {
        let core = AgentCore { moves: VecDeque::new(), events: VecDeque::new(), bound: false };
        assert(core@.events =~= Seq::empty());
        core
    }

    /// Puts a move at the back of the move queue.
    pub fn send_move(&mut self, mv: Move)
        ensures
            final(self)@ == (AgentView { moves: old(self)@.moves.push(mv), ..old(self)@ }),
    {
        self.moves.push_back(mv);
    }

    /// Takes the oldest waiting move, if there is one.
    pub fn try_recv_move(&mut self) -> (taken: Option<Move>)
        ensures
            old(self)@.moves.len() == 0 ==> taken is None && final(self)@ == old(self)@,
            old(self)@.moves.len() > 0 ==> taken == Some(old(self)@.moves[0]) && final(self)@ == (
            AgentView { moves: old(self)@.moves.drop_first(), ..old(self)@ }),
    {
        let taken = self.moves.pop_front();
        assert(old(self)@.moves.len() > 0 ==> self.moves@ =~= old(self)@.moves.drop_first());
        taken
    }

    /// Puts an event at the back of the event queue.
    pub fn send_event(&mut self, event: GameEvent)
        ensures
            final(self)@ == (AgentView { events: old(self)@.events.push(event@), ..old(self)@ }),
    {
        self.events.push_back(event);
        assert(event_views(self.events@) =~= event_views(old(self).events@).push(event@));
    }

    /// Takes the oldest waiting event, if there is one.
    pub fn try_recv_event(&mut self) -> (taken: Option<GameEvent>)
        ensures
            old(self)@.events.len() == 0 ==> taken is None && final(self)@ == old(self)@,
            old(self)@.events.len() > 0 ==> taken is Some && taken->0@ == old(self)@.events[0]
                && final(self)@ == (AgentView {
                events: old(self)@.events.drop_first(),
                ..old(self)@
            }),
    {
        let taken = self.events.pop_front();
        assert(old(self)@.events.len() > 0 ==> event_views(self.events@) =~= event_views(
            old(self).events@,
        ).drop_first());
        taken
    }

    /// Records that a connection is bound to the seat.
    pub fn mark_bound(&mut self)
        ensures
            final(self)@ == (AgentView { bound: true, ..old(self)@ }),
    {
        self.bound = true;
    }

    /// Whether a connection has been bound to the seat.
    pub fn is_bound(&self) -> (bound: bool)
        ensures
            bound == self@.bound,
    {
        self.bound
    }

    /// The number of moves waiting for the session.
    pub fn pending_moves(&self) -> (n: usize)
        ensures
            n == self@.moves.len(),
    {
        self.moves.len()
    }

    /// The number of events waiting for the connection.
    pub fn pending_events(&self) -> (n: usize)
        ensures
            n == self@.events.len(),
    {
        self.events.len()
    }
}

} // verus!
