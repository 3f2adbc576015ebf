//! The session: the bytes that arrived and were not yet read, the bytes that
//! wait to be sent, the view of the game, and the shutdown flag.
//!
//! A session performs no I/O. Its owner reads what the transport has, hands
//! it to `one_cycle`, and writes what `one_cycle` hands back.

use crate::codec::{DecodeError, Wire};
use crate::game::Game;
use crate::protocol::{ClientCommand, GameState, Move, Player, ServerEvent};
use crate::ser_de::{de, failure_in, framed, left_in, messages_in, ser};
use vstd::prelude::*;

verus! {

/// A session as contracts see it.
pub struct SessionView {
    /// The bytes that arrived and were not yet taken as frames.
    pub inbound: Seq<u8>,
    /// The frames that wait to be sent.
    pub outbound: Seq<u8>,
    /// The view of the game.
    pub game: Game,
    /// Whether the session was shut down.
    pub shut_down: bool,
}

impl SessionView {
    /// A session that has seen no byte and joined no game.
    pub open spec fn fresh() -> SessionView {
        SessionView {
            inbound: Seq::empty(),
            outbound: Seq::empty(),
            game: Game::fresh(),
            shut_down: false,
        }
    }

    /// The session with the frame of `command` at the end of what waits to be
    /// sent.
    pub open spec fn queued(self, command: ClientCommand) -> SessionView {
        SessionView { outbound: self.outbound + framed(command.payload()), ..self }
    }

    /// The session after it asked for a new game: the request waits to be
    /// sent, and nothing is known of any game.
    pub open spec fn joined(self) -> SessionView {
        SessionView { game: Game::fresh(), ..self.queued(ClientCommand::Join) }
    }

    /// The session after it submitted `movement`: the move waits to be sent,
    /// and the guard on the move of the turn is up.
    pub open spec fn moved(self, movement: Move) -> SessionView {
        SessionView { game: self.game.after_move(), ..self.queued(ClientCommand::Move(movement)) }
    }

    /// The session after `received` arrived and a cycle ran: the events of
    /// the whole frames are applied, what waited to be sent has left.
    pub open spec fn cycled(self, received: Seq<u8>) -> SessionView {
        SessionView {
            inbound: left_in::<ServerEvent>(self.inbound + received),
            outbound: Seq::empty(),
            game: self.game.after_all(messages_in::<ServerEvent>(self.inbound + received)),
            shut_down: self.shut_down,
        }
    }

    /// The session once shut down.
    pub open spec fn closed(self) -> SessionView {
        SessionView { shut_down: true, ..self }
    }
}

/// What one cycle did.
pub struct Cycle {
    /// How many events were applied.
    pub applied: usize,
    /// Why the cycle stopped at a frame, if its payload could not be decoded.
    /// The frame stays in the session.
    pub failure: Option<DecodeError>,
    /// The bytes to write to the transport.
    pub outgoing: Vec<u8>,
}

/// The session core of a client.
pub struct Session {
    inbound: Vec<u8>,
    outbound: Vec<u8>,
    game: Game,
    shut_down: bool,
}

impl View for Session {
    type V = SessionView;

    closed spec fn view(&self) -> SessionView {
        SessionView {
            inbound: self.inbound@,
            outbound: self.outbound@,
            game: self.game,
            shut_down: self.shut_down,
        }
    }
}

impl Session {
    /// A session that has seen no byte and joined no game.
    pub fn new() -> (session: Session)
        ensures
            session@ == SessionView::fresh(),
    {
        Session { inbound: Vec::new(), outbound: Vec::new(), game: Game::new(), shut_down: false }
    }

    /// Whether the session was shut down.
    pub fn is_shut_down(&self) -> (down: bool)
        ensures
            down == self@.shut_down,
    {
        self.shut_down
    }

    /// Whether a game is in progress.
    pub fn game_in_progress(&self) -> (running: bool)
        ensures
            running == self@.game.in_progress(),
    {
        self.game.game_in_progress()
    }

    /// The last position that the server sent; none before the first, and
    /// none after `join`.
    pub fn game_state(&self) -> (state: Option<GameState>)
        ensures
            state == self@.game.snapshot,
    {
        self.game.snapshot
    }

    /// The side of the local player, while a game is in progress.
    pub fn pov(&self) -> (side: Option<Player>)
        ensures
            side == self@.game.color(),
    {
        self.game.pov()
    }

    /// Whether a move can be submitted now.
    pub fn can_send_move(&self) -> (open: bool)
        ensures
            open == self@.game.can_move(),
    {
        self.game.can_send_move()
    }

    /// The frames that wait to be sent.
    pub fn pending(&self) -> (bytes: &Vec<u8>)
        ensures
            bytes@ == self@.outbound,
    {
        &self.outbound
    }

    /// Leaves the game in progress, if any, and asks the server for a new
    /// one.
    pub fn join(&mut self)
        ensures
            final(self)@ == old(self)@.joined(),
    {
        let mut frame: Vec<u8> = ser(ClientCommand::Join);
        self.outbound.append(&mut frame);
        self.game = Game::new();
    }

    /// Submits a move for the current turn.
    pub fn send_move(&mut self, movement: Move)
        requires
            old(self)@.game.can_move(),
        ensures
            final(self)@ == old(self)@.moved(movement),
    {
        let mut frame: Vec<u8> = ser(ClientCommand::Move(movement));
        self.outbound.append(&mut frame);
        self.game.move_sent = true;
    }

    /// Shuts the session down. A session that is shut down stays so.
    pub fn shut_down(&mut self)
        ensures
            final(self)@ == old(self)@.closed(),
    {
        self.shut_down = true;
    }

    /// One cycle: takes in the bytes that arrived, applies the events of the
    /// whole frames among them, and hands out the frames that waited to be
    /// sent. It stops at a frame whose payload cannot be decoded and leaves
    /// that frame, and what follows it, in the session.
    pub fn one_cycle(&mut self, received: Vec<u8>) -> (cycle: Cycle)
        ensures
            final(self)@ == old(self)@.cycled(received@),
            cycle.applied == messages_in::<ServerEvent>(old(self)@.inbound + received@).len(),
            cycle.failure == failure_in::<ServerEvent>(old(self)@.inbound + received@),
            cycle.outgoing@ == old(self)@.outbound,
    {
        let mut incoming: Vec<u8> = received;
        self.inbound.append(&mut incoming);
        let ghost arrived: Seq<u8> = self.inbound@;
        let ghost before: Game = self.game;
        let ghost mut taken: Seq<ServerEvent> = Seq::empty();
        let mut applied: usize = 0;
        let mut failure: Option<DecodeError> = None;
        assert(arrived =~= old(self)@.inbound + received@);
        assert(arrived.len() == self.inbound.len());
        loop
            invariant_except_break
                failure is None,
            invariant
                messages_in::<ServerEvent>(arrived) == taken + messages_in::<ServerEvent>(self.inbound@),
                left_in::<ServerEvent>(arrived) == left_in::<ServerEvent>(self.inbound@),
                self.game == before.after_all(taken),
                applied == taken.len(),
                applied * 4 + self.inbound@.len() <= arrived.len(),
                arrived.len() <= usize::MAX,
                self.outbound == old(self).outbound,
                self.shut_down == old(self).shut_down,
            ensures
                messages_in::<ServerEvent>(arrived) == taken,
                left_in::<ServerEvent>(arrived) == self.inbound@,
                failure == failure_in::<ServerEvent>(arrived),
                self.game == before.after_all(taken),
                applied == taken.len(),
                self.outbound == old(self).outbound,
                self.shut_down == old(self).shut_down,
            decreases self.inbound@.len(),
        {
            match de::<ServerEvent>(&mut self.inbound) {
                Ok(Some(event)) => {
                    self.game.apply(event);
                    applied = applied + 1;
                    proof {
                        assert(taken.push(event).drop_last() =~= taken);
                        taken = taken.push(event);
                        assert(messages_in::<ServerEvent>(arrived) =~= taken + messages_in::<ServerEvent>(self.inbound@));
                    }
                },
                Ok(None) => {
                    proof {
                        assert(taken + Seq::<ServerEvent>::empty() =~= taken);
                    }
                    break ;
                },
                Err(error) => {
                    failure = Some(error);
                    proof {
                        assert(taken + Seq::<ServerEvent>::empty() =~= taken);
                    }
                    break ;
                },
            }
        }
        let mut outgoing: Vec<u8> = Vec::new();
        outgoing.append(&mut self.outbound);
        Cycle { applied, failure, outgoing }
    }
}

/// Idempotent shutdown: a second shutdown changes nothing, and a session that
/// was shut down says so.
pub proof fn lemma_shut_down_twice(session: SessionView)
    ensures
        session.closed().closed() == session.closed(),
        session.closed().shut_down,
{
}

/// Join resets state: after a request for a new game no position is known and
/// the local player has no side, whatever the session held before.
pub proof fn lemma_join_resets(session: SessionView)
    ensures
        session.joined().game.snapshot is None,
        session.joined().game.color() is None,
        !session.joined().game.move_sent,
{
}

/// Turn-submission guard: after a move was submitted, no move can be
/// submitted.
pub proof fn lemma_no_second_move(session: SessionView, movement: Move)
    ensures
        !session.moved(movement).game.can_move(),
{
}

} // verus!
