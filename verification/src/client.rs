//! The client: the session behind the operations that an application calls.
//!
//! Every operation is one step on the session. An application that shares a
//! client between threads keeps it behind a lock and takes the lock for one
//! operation at a time; the task that polls the transport calls `poll` until
//! it returns nothing.

use crate::protocol::{GameState, Move, Player, ServerEvent};
use crate::ser_de::{failure_in, messages_in};
use crate::session::{Cycle, Session, SessionView};
use vstd::prelude::*;

verus! {

/// Calls `rand::random` for a `usize`. Nothing is claimed of the number.
#[verifier::external_body]
fn random_index() -> usize {
    rand::random::<usize>()
}

/// A client of the game server.
pub struct Client {
    inner: Session,
}

impl View for Client {
    type V = SessionView;

    closed spec fn view(&self) -> SessionView {
        self.inner@
    }
}

impl Client {
    /// A client that has seen no byte and joined no game.
    pub fn new() -> (client: Client)
        ensures
            client@ == SessionView::fresh(),
    {
        Client { inner: Session::new() }
    }

    /// Whether a game is in progress: a position is known and it is not final.
    pub fn game_in_progress(&self) -> (running: bool)
        ensures
            running == self@.game.in_progress(),
    {
        self.inner.game_in_progress()
    }

    /// Leaves the game in progress, if any, and asks the server for a new
    /// one. Nothing is known of any game afterwards.
    pub fn join_new_game(&mut self)
        ensures
            final(self)@ == old(self)@.joined(),
    {
        self.inner.join();
    }

    /// The last position that the server sent; none before the first, and
    /// none after `join_new_game`.
    pub fn game_state(&self) -> (state: Option<GameState>)
        ensures
            state == self@.game.snapshot,
    {
        self.inner.game_state()
    }

    /// The side of the local player; none unless a game is in progress.
    pub fn player_color(&self) -> (side: Option<Player>)
        ensures
            side == self@.game.color(),
    {
        self.inner.pov()
    }

    /// Whether the server waits for a move of the local player: a game is in
    /// progress, the local player is to move, and no move was submitted in
    /// this turn.
    pub fn can_send_move(&self) -> (open: bool)
        ensures
            open == self@.game.can_move(),
    {
        self.inner.can_send_move()
    }

    /// Submits `movement` if a move can be submitted, and says whether it
    /// did. Nothing changes if it did not.
    pub fn send_move(&mut self, movement: Move) -> (sent: bool)
        ensures
            sent == old(self)@.game.can_move(),
            sent ==> final(self)@ == old(self)@.moved(movement),
            !sent ==> final(self)@ == old(self)@,
    {
        if self.inner.can_send_move() {
            self.inner.send_move(movement);
            true
        } else {
            false
        }
    }

    /// Submits the move of `possible_moves` that `choice` picks, the one at
    /// the index `choice` modulo the number of moves, if a move can be
    /// submitted and there is a move to pick. Says whether it did; nothing
    /// changes if it did not.
    pub fn send_chosen_move(&mut self, possible_moves: &Vec<Move>, choice: usize) -> (sent: bool)
        ensures
            sent == (old(self)@.game.can_move() && possible_moves@.len() > 0),
            sent ==> final(self)@ == old(self)@.moved(
                possible_moves@[choice as int % possible_moves@.len() as int],
            ),
            !sent ==> final(self)@ == old(self)@,
    {
        if possible_moves.len() == 0 {
            return false;
        }
        let movement: Move = possible_moves[choice % possible_moves.len()];
        self.send_move(movement)
    }

    /// Submits a move of `possible_moves` picked at random, if a move can be
    /// submitted and there is a move to pick. Says whether it did; nothing
    /// changes if it did not.
    pub fn send_dumb_move(&mut self, possible_moves: &Vec<Move>) -> (sent: bool)
        ensures
            sent == (old(self)@.game.can_move() && possible_moves@.len() > 0),
            sent ==> exists|i: int|
                0 <= i < possible_moves@.len() && final(self)@ == old(self)@.moved(
                    #[trigger] possible_moves@[i],
                ),
            !sent ==> final(self)@ == old(self)@,
    {
        if self.inner.can_send_move() {
            let choice: usize = random_index();
            self.send_chosen_move(possible_moves, choice)
        } else {
            false
        }
    }

    /// Shuts the client down. Once shut down, a client stays so.
    pub fn shut_down(&mut self)
        ensures
            final(self)@ == old(self)@.closed(),
    {
        self.inner.shut_down();
    }

    /// Whether the client was shut down.
    pub fn is_shut_down(&self) -> (down: bool)
        ensures
            down == self@.shut_down,
    {
        self.inner.is_shut_down()
    }

    /// The frames that wait to be sent.
    pub fn pending(&self) -> (bytes: &Vec<u8>)
        ensures
            bytes@ == self@.outbound,
    {
        self.inner.pending()
    }

    /// One turn of the polling task. A client that was shut down returns
    /// nothing and stays as it is: the task ends. Else one cycle of the
    /// session runs on the bytes that arrived.
    pub fn poll(&mut self, received: Vec<u8>) -> (turn: Option<Cycle>)
        ensures
            turn is None <==> old(self)@.shut_down,
            old(self)@.shut_down ==> final(self)@ == old(self)@,
            turn matches Some(cycle) ==> {
                &&& final(self)@ == old(self)@.cycled(received@)
                &&& cycle.applied == messages_in::<ServerEvent>(old(self)@.inbound + received@).len()
                &&& cycle.failure == failure_in::<ServerEvent>(old(self)@.inbound + received@)
                &&& cycle.outgoing@ == old(self)@.outbound
            },
    {
        if self.inner.is_shut_down() {
            None
        } else {
            Some(self.inner.one_cycle(received))
        }
    }
}

} // verus!
