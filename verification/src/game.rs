//! The local view of the game: the last position that the server sent, the
//! side that the local player has, and the guard on the move of the turn.

use crate::protocol::{GameState, Player, ServerEvent};
use vstd::prelude::*;

verus! {

/// What a client knows of the game it has joined.
#[derive(Clone, Copy, Debug, PartialEq, Eq)]
pub struct Game {
    /// The last position that the server sent; none before the first.
    pub snapshot: Option<GameState>,
    /// The side of the local player; none before the first position.
    pub identity: Option<Player>,
    /// Whether a move was submitted in the turn of `snapshot`.
    pub move_sent: bool,
}

impl Game {
    /// The view of a client that has joined no game.
    pub open spec fn fresh() -> Game {
        Game { snapshot: None, identity: None, move_sent: false }
    }

    /// A game is in progress while a position is known and it is not final.
    pub open spec fn in_progress(self) -> bool {
        self.snapshot matches Some(state) && !state.finished
    }

    /// The side of the local player, known while a game is in progress.
    pub open spec fn color(self) -> Option<Player> {
        if self.in_progress() {
            self.identity
        } else {
            None
        }
    }

    /// A move can be submitted while a game is in progress, the local player
    /// is to move, and no move was submitted in this turn.
    pub open spec fn can_move(self) -> bool {
        &&& self.snapshot matches Some(state)
        &&& !state.finished
        &&& self.identity == Some(state.to_move)
        &&& !self.move_sent
    }

    /// Whether `state` opens a turn or ends the game: no position was known,
    /// or the number of the turn differs, or `state` is final.
    pub open spec fn opens_turn(self, state: GameState) -> bool {
        match self.snapshot {
            Some(known) => known.turn != state.turn || state.finished,
            None => true,
        }
    }

    /// Whether `event` clears the guard on the move of the turn.
    pub open spec fn clears_guard(self, event: ServerEvent) -> bool {
        event matches ServerEvent::State { state, .. } && self.opens_turn(state)
    }

    /// The view after `event`. A position replaces the one known, and the
    /// side it was sent to is the local player's; the guard on the move falls
    /// when the position opens a turn or ends the game.
    pub open spec fn after(self, event: ServerEvent) -> Game {
        match event {
            ServerEvent::Pong => self,
            ServerEvent::State { state, pov } => Game {
                snapshot: Some(state),
                identity: Some(pov),
                move_sent: self.move_sent && !self.opens_turn(state),
            },
        }
    }

    /// The view after `events`, applied in order.
    pub open spec fn after_all(self, events: Seq<ServerEvent>) -> Game
        decreases events.len(),
    {
        if events.len() == 0 {
            self
        } else {
            self.after_all(events.drop_last()).after(events.last())
        }
    }

    /// The view once a move was submitted.
    pub open spec fn after_move(self) -> Game {
        Game { move_sent: true, ..self }
    }

    /// The view of a client that has joined no game.
    pub fn new() -> (game: Game)
        ensures
            game == Game::fresh(),
    {
        Game { snapshot: None, identity: None, move_sent: false }
    }

    /// Whether a game is in progress.
    pub fn game_in_progress(&self) -> (running: bool)
        ensures
            running == self.in_progress(),
    {
        match self.snapshot {
            Some(state) => !state.finished,
            None => false,
        }
    }

    /// The side of the local player, while a game is in progress.
    pub fn pov(&self) -> (side: Option<Player>)
        ensures
            side == self.color(),
    {
        if self.game_in_progress() {
            self.identity
        } else {
            None
        }
    }

    /// Whether a move can be submitted now.
    pub fn can_send_move(&self) -> (open: bool)
        ensures
            open == self.can_move(),
    {
        if self.move_sent {
            return false;
        }
        match (self.snapshot, self.identity) {
            (Some(state), Some(side)) => !state.finished && side == state.to_move,
            _ => false,
        }
    }

    /// Applies an event of the server.
    pub fn apply(&mut self, event: ServerEvent)
        ensures
            *final(self) == old(self).after(event),
    {
        match event {
            ServerEvent::Pong => {},
            ServerEvent::State { state, pov } => {
                let opens: bool = match self.snapshot {
                    Some(known) => known.turn != state.turn || state.finished,
                    None => true,
                };
                self.snapshot = Some(state);
                self.identity = Some(pov);
                self.move_sent = self.move_sent && !opens;
            },
        }
    }
}

/// Turn-submission guard, one event: once a move was submitted, an event that
/// neither opens a turn nor ends the game leaves the guard up, and no move can
/// be submitted after it.
pub proof fn lemma_guard_holds(game: Game, event: ServerEvent)
    requires
        game.move_sent,
        !game.clears_guard(event),
    ensures
        game.after(event).move_sent,
        !game.after(event).can_move(),
{
}

/// Whether none of `events`, applied in order from `game`, opens a turn or
/// ends the game.
pub open spec fn same_turn(game: Game, events: Seq<ServerEvent>) -> bool {
    forall|i: int|
        0 <= i < events.len() ==> !(#[trigger] game.after_all(events.take(i))).clears_guard(
            events[i],
        )
}

/// Turn-submission guard: once a move was submitted, no move can be submitted
/// until an event opens a turn or ends the game, however many events arrive.
pub proof fn lemma_guard_holds_until_new_turn(game: Game, events: Seq<ServerEvent>)
    requires
        game.move_sent,
        same_turn(game, events),
    ensures
        game.after_all(events).move_sent,
        !game.after_all(events).can_move(),
    decreases events.len(),
{
    if events.len() > 0 {
        let earlier = events.drop_last();
        assert forall|i: int| 0 <= i < earlier.len() implies !(#[trigger] game.after_all(
            earlier.take(i),
        )).clears_guard(earlier[i]) by {
            assert(earlier.take(i) =~= events.take(i));
        }
        lemma_guard_holds_until_new_turn(game, earlier);
        assert(events.take(events.len() - 1) =~= earlier);
        lemma_guard_holds(game.after_all(earlier), events.last());
    }
}

} // verus!
