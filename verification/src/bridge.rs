//! One connection bound to one seat: what to do with each frame that
//! arrives, what to send, and what to do when the connection ends.

use crate::agent::AgentView;
use crate::lobby::{
    is_active, join_result, registry_join, registry_valid, EntryView, LobbyError, LobbyRegistry,
};
use crate::moves::{EventView, MoveResult, PlayerSlot};
use crate::session::{
    seats_backlog, seats_bind, seats_deliver, seats_disconnect, seats_drained, seats_pending,
    seats_step, seats_submit, seats_waiting, step_result, RulesEngine, SessionDriver, Verdict,
};
use crate::wire::{decode_move, encode_event, event_frame, framed_move};
use vstd::prelude::*;

verus! {

/// The seat that a connection holds: the session's name and the slot.
#[derive(Debug)]
pub struct TransportBridge {
    pub name: String,
    pub slot: PlayerSlot,
}

/// What became of a frame that arrived.
#[derive(Clone, Copy, Debug, PartialEq, Eq, Structural)]
pub enum Inbound {
    /// The move waits on the seat's queue: the session is not yet active.
    Queued,
    /// The move was queued and the session took a step, with this result.
    /// After `Terminated` the session is no longer in the registry.
    Stepped { result: MoveResult },
    /// The frame carried no move, which means that the player has left:
    /// the session is torn down and the connection is to be closed.
    Closed,
}

/// Whether the outcome ends the session: the player has left, or the
/// step has ended the game.
pub open spec fn ends_session(outcome: Inbound) -> bool {
    outcome == Inbound::Closed || outcome == (Inbound::Stepped { result: MoveResult::Terminated })
}

impl Inbound {
    /// Whether the session is to leave the registry after this outcome.
    pub fn retires(self) -> (retires: bool)
        ensures
            retires == ends_session(self),
    {
        match self {
            Inbound::Closed => true,
            Inbound::Stepped { result: MoveResult::Terminated } => true,
            _ => false,
        }
    }
}

impl TransportBridge {
    /// Takes a seat of the lobby under `name` for a connection, as
    /// `LobbyRegistry::join` does.
    pub fn open<S>(registry: &mut LobbyRegistry<S>, name: &str) -> (opened: Result<
        TransportBridge,
        LobbyError,
    >)
        ensures
            match opened {
                Ok(bridge) => join_result(old(registry)@, name@) == Ok::<PlayerSlot, LobbyError>(
                    bridge.slot,
                ) && bridge.name@ == name@,
                Err(error) => join_result(old(registry)@, name@) == Err::<PlayerSlot, LobbyError>(
                    error,
                ),
            },
            final(registry)@ == registry_join(old(registry)@, name@),
            registry_valid(final(registry)@),
    {
        match registry.join(name) {
            Ok(slot) => Ok(TransportBridge { name: name.to_owned(), slot }),
            Err(error) => Err(error),
        }
    }

    /// Binds the connection to its seat: the seat is sent `SessionStart`
    /// with the engine's snapshot of this moment. Returns whether it was
    /// sent; it is not sent a second time.
    pub fn bind<E: RulesEngine>(&self, driver: &mut SessionDriver<E>) -> (sent: bool)
        ensures
            sent == ((self.slot as int) < old(driver)@.len()
                && !old(driver)@[self.slot as int].bound),
            exists|state: Seq<u8>| final(driver)@ == seats_bind(old(driver)@, self.slot, state),
            final(driver).engine_state() == old(driver).engine_state(),
            final(driver).played_under() == old(driver).played_under(),
    {
        driver.bind(self.slot)
    }

    /// Handles one frame from the connection on the session alone, given
    /// whether the session is active.
    ///
    /// A frame that carries a move of the session's rulebook: the move
    /// is put on the seat's queue, and if the session is active it then
    /// takes one step. Any other frame counts as the player leaving:
    /// every other seat is sent `PeerDisconnected`. After an outcome that
    /// ends the session, whatever the name denotes is to leave the
    /// registry.
    pub fn relay<E: RulesEngine>(
        &self,
        driver: &mut SessionDriver<E>,
        active: bool,
        frame: &[u8],
    ) -> (outcome: Inbound)
        ensures
            match framed_move(old(driver).played_under(), frame@) {
                None => {
                    &&& outcome == Inbound::Closed
                    &&& final(driver)@ == seats_disconnect(old(driver)@, self.slot)
                    &&& final(driver).engine_state() == old(driver).engine_state()
                },
                Some(mv) => {
                    let queued = seats_submit(old(driver)@, self.slot, mv);
                    if active {
                        exists|turn: PlayerSlot, verdict: Verdict|
                            {
                                &&& final(driver)@ == #[trigger] seats_step(queued, turn, verdict)
                                &&& outcome == (Inbound::Stepped {
                                    result: step_result(queued, turn, verdict),
                                })
                                &&& seats_pending(queued, turn) is None ==> final(
                                    driver
                                ).engine_state() == old(driver).engine_state()
                            }
                    } else {
                        &&& outcome == Inbound::Queued
                        &&& final(driver)@ == queued
                        &&& final(driver).engine_state() == old(driver).engine_state()
                    }
                },
            },
            final(driver).played_under() == old(driver).played_under(),
    {
        match decode_move(driver.rulebook(), frame) {
            None => {
                driver.disconnect(self.slot);
                Inbound::Closed
            },
            Some(mv) => {
                driver.submit(self.slot, mv);
                let ghost queued = driver@;
                if active {
                    let result = driver.step();
                    proof {
                        let (turn, verdict) = choose|turn: PlayerSlot, verdict: Verdict|
                            {
                                &&& driver@ == seats_step(queued, turn, verdict)
                                &&& result == step_result(queued, turn, verdict)
                                &&& seats_pending(queued, turn) is None ==> driver.engine_state()
                                    == old(driver).engine_state()
                            };
                        assert(driver@ == seats_step(queued, turn, verdict));
                    }
                    Inbound::Stepped { result }
                } else {
                    Inbound::Queued
                }
            },
        }
    }

    /// Handles one frame from the connection: what `relay` does on the
    /// session, given whether the registry holds it as active, and after
    /// an outcome that ends the session, by the player leaving or by the
    /// end of the game, whatever the name denotes leaves the registry.
    pub fn inbound<S, E: RulesEngine>(
        &self,
        registry: &mut LobbyRegistry<S>,
        driver: &mut SessionDriver<E>,
        frame: &[u8],
    ) -> (outcome: Inbound)
        ensures
            match framed_move(old(driver).played_under(), frame@) {
                None => {
                    &&& outcome == Inbound::Closed
                    &&& final(registry)@ == old(registry)@.remove(self.name@)
                    &&& final(driver)@ == seats_disconnect(old(driver)@, self.slot)
                    &&& final(driver).engine_state() == old(driver).engine_state()
                },
                Some(mv) => {
                    let queued = seats_submit(old(driver)@, self.slot, mv);
                    if is_active(old(registry)@, self.name@) {
                        exists|turn: PlayerSlot, verdict: Verdict|
                            {
                                &&& final(driver)@ == #[trigger] seats_step(queued, turn, verdict)
                                &&& outcome == (Inbound::Stepped {
                                    result: step_result(queued, turn, verdict),
                                })
                                &&& seats_pending(queued, turn) is None ==> final(
                                    driver
                                ).engine_state() == old(driver).engine_state()
                                &&& final(registry)@ == if step_result(queued, turn, verdict)
                                    == MoveResult::Terminated {
                                    old(registry)@.remove(self.name@)
                                } else {
                                    old(registry)@
                                }
                            }
                    } else {
                        &&& outcome == Inbound::Queued
                        &&& final(driver)@ == queued
                        &&& final(registry)@ == old(registry)@
                        &&& final(driver).engine_state() == old(driver).engine_state()
                    }
                },
            },
            final(driver).played_under() == old(driver).played_under(),
            registry_valid(final(registry)@),
    {
        let active = registry.active(self.name.as_str()).is_some();
        let outcome = self.relay(driver, active, frame);
        if outcome.retires() {
            registry.remove(self.name.as_str());
        }
        proof {
            match framed_move(old(driver).played_under(), frame@) {
                Some(mv) => {
                    if active {
                        let queued = seats_submit(old(driver)@, self.slot, mv);
                        let (turn, verdict) = choose|turn: PlayerSlot, verdict: Verdict|
                            {
                                &&& driver@ == #[trigger] seats_step(queued, turn, verdict)
                                &&& outcome == (Inbound::Stepped {
                                    result: step_result(queued, turn, verdict),
                                })
                                &&& seats_pending(queued, turn) is None ==> driver.engine_state()
                                    == old(driver).engine_state()
                            };
                        assert(driver@ == seats_step(queued, turn, verdict));
                    }
                },
                None => {},
            }
        }
        outcome
    }

    /// Handles the end of the connection: whatever the name denotes, a
    /// lobby that still waits or an active session, leaves the registry,
    /// and every other seat of the session is sent `PeerDisconnected`,
    /// once, for its connection to deliver.
    pub fn close<S, E: RulesEngine>(
        &self,
        registry: &mut LobbyRegistry<S>,
        driver: &mut SessionDriver<E>,
    )
        ensures
            final(registry)@ == old(registry)@.remove(self.name@),
            !final(registry)@.contains_key(self.name@),
            final(driver)@ == seats_disconnect(old(driver)@, self.slot),
            final(driver).engine_state() == old(driver).engine_state(),
            final(driver).played_under() == old(driver).played_under(),
            registry_valid(final(registry)@),
    {
        registry.remove(self.name.as_str());
        driver.disconnect(self.slot);
    }

    /// Takes the oldest event that waits for the connection, as the
    /// frame to send; `None` when nothing waits. Frames come out in the
    /// order in which the session sent the events.
    pub fn outbound<E: RulesEngine>(&self, driver: &mut SessionDriver<E>) -> (frame: Option<
        Vec<u8>,
    >)
        ensures
            match seats_waiting(old(driver)@, self.slot) {
                Some(event) => frame is Some && frame->0@ == event_frame(
                    old(driver).played_under(),
                    event,
                ),
                None => frame is None,
            },
            final(driver)@ == seats_deliver(old(driver)@, self.slot),
            final(driver).engine_state() == old(driver).engine_state(),
            final(driver).played_under() == old(driver).played_under(),
    {
        match driver.next_event(self.slot) {
            Some(event) => Some(encode_event(driver.rulebook(), &event)),
            None => None,
        }
    }

    /// Takes every event that waits for the connection, as the frames to
    /// send, in the order in which the session sent the events.
    pub fn drain<E: RulesEngine>(&self, driver: &mut SessionDriver<E>) -> (frames: Vec<Vec<u8>>)
        ensures
            final(driver)@ == seats_drained(old(driver)@, self.slot),
            frames@.len() == seats_backlog(old(driver)@, self.slot).len(),
            forall|i: int|
                0 <= i < frames@.len() ==> (#[trigger] frames@[i])@ == event_frame(
                    old(driver).played_under(),
                    seats_backlog(old(driver)@, self.slot)[i],
                ),
            final(driver).engine_state() == old(driver).engine_state(),
            final(driver).played_under() == old(driver).played_under(),
    {
        let ghost backlog = seats_backlog(driver@, self.slot);
        let ghost start = driver@;
        let mut frames: Vec<Vec<u8>> = Vec::new();
        loop
            invariant
                driver.engine_state() == old(driver).engine_state(),
                driver.played_under() == old(driver).played_under(),
                start == old(driver)@,
                backlog == seats_backlog(start, self.slot),
                driver@.len() == start.len(),
                frames@.len() <= backlog.len(),
                seats_backlog(driver@, self.slot) == backlog.subrange(
                    frames@.len() as int,
                    backlog.len() as int,
                ),
                forall|j: int|
                    0 <= j < driver@.len() && j != self.slot ==> driver@[j] == start[j],
                (self.slot as int) < start.len() ==> driver@[self.slot as int] == (AgentView {
                    events: seats_backlog(driver@, self.slot),
                    ..start[self.slot as int]
                }),
                forall|i: int|
                    0 <= i < frames@.len() ==> (#[trigger] frames@[i])@ == event_frame(
                        old(driver).played_under(),
                        backlog[i],
                    ),
            ensures
                frames@.len() == backlog.len(),
                seats_backlog(driver@, self.slot).len() == 0,
            decreases backlog.len() - frames@.len(),
        {
            match self.outbound(driver) {
                Some(frame) => {
                    frames.push(frame);
                    assert(seats_backlog(driver@, self.slot) =~= backlog.subrange(
                        frames@.len() as int,
                        backlog.len() as int,
                    ));
                },
                None => {
                    break ;
                },
            }
        }
        assert(seats_backlog(driver@, self.slot) =~= Seq::<EventView>::empty());
        assert(driver@ =~= seats_drained(start, self.slot));
        frames
    }
}

/// When one of the two players of an active session leaves, the session is
/// gone from the registry, under its name nothing is left, and the
/// player who remains is told so exactly once: one `PeerDisconnected`
/// joins the end of that seat's queue, and the seat of the player who
/// left receives nothing.
pub proof fn law_leaving_ends_session<S>(
    table: Map<Seq<char>, EntryView<S>>,
    name: Seq<char>,
    seats: Seq<AgentView>,
    gone: PlayerSlot,
)
    requires
        is_active(table, name),
        seats.len() == 2,
        gone < 2,
    ensures
        !table.remove(name).contains_key(name),
        !is_active(table.remove(name), name),
        forall|other: Seq<char>| other != name ==> table.remove(name).contains_key(other)
            == table.contains_key(other),
        seats_disconnect(seats, gone)[1 - gone].events == seats[1 - gone].events.push(
            EventView::PeerDisconnected,
        ),
        seats_disconnect(seats, gone)[gone as int] == seats[gone as int],
{
}

} // verus!
