//! The game as the session sees it, and the messages of the protocol.
//!
//! Payloads are laid out as `bincode` lays out an enum or a struct: the index
//! of the variant as a 32-bit number, then the fields in the order of their
//! declaration.

use crate::codec::{
    be_bytes, bool_at, bool_bytes, get_bool, get_u32, lemma_bool_at, lemma_u32_at, put_bool,
    put_u32, u32_at, DecodeError, Wire,
};
use vstd::prelude::*;

verus! {

/// One of the two sides of a game.
#[derive(Clone, Copy, Debug, PartialEq, Eq, Structural)]
pub enum Player {
    Red,
    Blue,
}

/// A move, by the code that the rules of the game give it.
#[derive(Clone, Copy, Debug, PartialEq, Eq, Structural)]
pub struct Move {
    pub code: u32,
}

/// A position of the game, as far as the session reads it.
#[derive(Clone, Copy, Debug, PartialEq, Eq, Structural)]
pub struct GameState {
    /// The number of the turn.
    pub turn: u32,
    /// The side that moves next.
    pub to_move: Player,
    /// Whether the game is over.
    pub finished: bool,
}

/// What a client sends to the server.
#[derive(Clone, Copy, Debug, PartialEq, Eq, Structural)]
pub enum ClientCommand {
    /// Asks the server for a sign of life.
    Ping,
    /// Leaves the game in progress, if any, and asks for a new one.
    Join,
    /// Submits a move for the current turn.
    Move(Move),
}

/// What the server sends to a client.
#[derive(Clone, Copy, Debug, PartialEq, Eq, Structural)]
pub enum ServerEvent {
    /// The answer to a `Ping`.
    Pong,
    /// The position of the game, sent to the side `pov`.
    State { state: GameState, pov: Player },
}

/// The index of a side.
pub open spec fn player_tag(player: Player) -> u32 {
    match player {
        Player::Red => 0,
        Player::Blue => 1,
    }
}

/// The bytes of a position: turn, side to move, end of game.
pub open spec fn state_bytes(state: GameState) -> Seq<u8> {
    be_bytes(state.turn) + be_bytes(player_tag(state.to_move)) + bool_bytes(state.finished)
}

/// What reading a side at offset `at` of `bytes` gives.
pub open spec fn player_at(bytes: Seq<u8>, at: int) -> Result<Player, DecodeError> {
    match u32_at(bytes, at) {
        Ok(tag) => if tag == 0 {
            Ok(Player::Red)
        } else if tag == 1 {
            Ok(Player::Blue)
        } else {
            Err(DecodeError::Invalid)
        },
        Err(error) => Err(error),
    }
}

/// What reading a position at offset `at` of `bytes` gives.
pub open spec fn state_at(bytes: Seq<u8>, at: int) -> Result<GameState, DecodeError> {
    match u32_at(bytes, at) {
        Ok(turn) => match player_at(bytes, at + 4) {
            Ok(to_move) => match bool_at(bytes, at + 8) {
                Ok(finished) => Ok(GameState { turn, to_move, finished }),
                Err(error) => Err(error),
            },
            Err(error) => Err(error),
        },
        Err(error) => Err(error),
    }
}

fn put_player(out: &mut Vec<u8>, player: Player)
    ensures
        final(out)@ == old(out)@ + be_bytes(player_tag(player)),
{
    match player {
        Player::Red => put_u32(out, 0),
        Player::Blue => put_u32(out, 1),
    }
}

fn put_state(out: &mut Vec<u8>, state: GameState)
    ensures
        final(out)@ == old(out)@ + state_bytes(state),
{
    put_u32(out, state.turn);
    put_player(out, state.to_move);
    put_bool(out, state.finished);
    assert(out@ =~= old(out)@ + state_bytes(state));
}

fn get_player(bytes: &[u8], at: usize) -> (player: Result<Player, DecodeError>)
    ensures
        player == player_at(bytes@, at as int),
{
    match get_u32(bytes, at) {
        Ok(tag) => if tag == 0 {
            Ok(Player::Red)
        } else if tag == 1 {
            Ok(Player::Blue)
        } else {
            Err(DecodeError::Invalid)
        },
        Err(error) => Err(error),
    }
}

fn get_state(bytes: &[u8], at: usize) -> (state: Result<GameState, DecodeError>)
    ensures
        state == state_at(bytes@, at as int),
{
    let turn: u32 = match get_u32(bytes, at) {
        Ok(turn) => turn,
        Err(error) => {
            return Err(error);
        },
    };
    assert(at + 4 <= bytes.len());
    let to_move: Player = match get_player(bytes, at + 4) {
        Ok(to_move) => to_move,
        Err(error) => {
            return Err(error);
        },
    };
    assert(at + 8 <= bytes.len());
    match get_bool(bytes, at + 8) {
        Ok(finished) => Ok(GameState { turn, to_move, finished }),
        Err(error) => Err(error),
    }
}

/// A side is read back from where its bytes stand.
pub proof fn lemma_player_at(before: Seq<u8>, player: Player, after: Seq<u8>)
    ensures
        player_at(before + be_bytes(player_tag(player)) + after, before.len() as int) matches Ok(
            side,
        ) && side == player,
{
    lemma_u32_at(before, player_tag(player), after);
}

/// A position is read back from where its bytes stand.
pub proof fn lemma_state_at(before: Seq<u8>, state: GameState, after: Seq<u8>)
    ensures
        state_bytes(state).len() == 9,
        state_at(before + state_bytes(state) + after, before.len() as int) matches Ok(position)
            && position == state,
{
    let turn = be_bytes(state.turn);
    let side = be_bytes(player_tag(state.to_move));
    let end = bool_bytes(state.finished);
    let bytes = before + state_bytes(state) + after;
    lemma_u32_at(before, state.turn, side + end + after);
    assert(bytes =~= before + turn + (side + end + after));
    lemma_player_at(before + turn, state.to_move, end + after);
    assert(bytes =~= before + turn + side + (end + after));
    lemma_bool_at(before + turn + side, state.finished, after);
    assert(bytes =~= before + turn + side + end + after);
}

impl Wire for ClientCommand {
    open spec fn payload(&self) -> Seq<u8> {
        match *self {
            ClientCommand::Ping => be_bytes(0),
            ClientCommand::Join => be_bytes(1),
            ClientCommand::Move(movement) => be_bytes(2) + be_bytes(movement.code),
        }
    }

    open spec fn parsed(bytes: Seq<u8>) -> Result<Self, DecodeError> {
        match u32_at(bytes, 0) {
            Ok(tag) => if tag == 0 {
                Ok(ClientCommand::Ping)
            } else if tag == 1 {
                Ok(ClientCommand::Join)
            } else if tag == 2 {
                match u32_at(bytes, 4) {
                    Ok(code) => Ok(ClientCommand::Move(Move { code })),
                    Err(error) => Err(error),
                }
            } else {
                Err(DecodeError::Invalid)
            },
            Err(error) => Err(error),
        }
    }

    fn encode(&self) -> (out: Vec<u8>) {
        let mut out: Vec<u8> = Vec::new();
        match *self {
            ClientCommand::Ping => put_u32(&mut out, 0),
            ClientCommand::Join => put_u32(&mut out, 1),
            ClientCommand::Move(movement) => {
                put_u32(&mut out, 2);
                put_u32(&mut out, movement.code);
            },
        }
        assert(out@ =~= self.payload());
        out
    }

    fn decode(bytes: &[u8]) -> (value: Result<Self, DecodeError>) {
        let tag: u32 = match get_u32(bytes, 0) {
            Ok(tag) => tag,
            Err(error) => {
                return Err(error);
            },
        };
        if tag == 0 {
            Ok(ClientCommand::Ping)
        } else if tag == 1 {
            Ok(ClientCommand::Join)
        } else if tag == 2 {
            match get_u32(bytes, 4) {
                Ok(code) => Ok(ClientCommand::Move(Move { code })),
                Err(error) => Err(error),
            }
        } else {
            Err(DecodeError::Invalid)
        }
    }

    proof fn lemma_payload_len(&self) {
    }

    proof fn lemma_parsed_payload(&self) {
        let empty = Seq::<u8>::empty();
        match *self {
            ClientCommand::Ping => {
                lemma_u32_at(empty, 0, empty);
                assert(self.payload() =~= empty + be_bytes(0) + empty);
            },
            ClientCommand::Join => {
                lemma_u32_at(empty, 1, empty);
                assert(self.payload() =~= empty + be_bytes(1) + empty);
            },
            ClientCommand::Move(movement) => {
                lemma_u32_at(empty, 2, be_bytes(movement.code));
                assert(self.payload() =~= empty + be_bytes(2) + be_bytes(movement.code));
                lemma_u32_at(be_bytes(2), movement.code, empty);
                assert(self.payload() =~= be_bytes(2) + be_bytes(movement.code) + empty);
            },
        }
    }
}

impl Wire for ServerEvent {
    open spec fn payload(&self) -> Seq<u8> {
        match *self {
            ServerEvent::Pong => be_bytes(0),
            ServerEvent::State { state, pov } => be_bytes(1) + state_bytes(state) + be_bytes(
                player_tag(pov),
            ),
        }
    }

    open spec fn parsed(bytes: Seq<u8>) -> Result<Self, DecodeError> {
        match u32_at(bytes, 0) {
            Ok(tag) => if tag == 0 {
                Ok(ServerEvent::Pong)
            } else if tag == 1 {
                match state_at(bytes, 4) {
                    Ok(state) => match player_at(bytes, 13) {
                        Ok(pov) => Ok(ServerEvent::State { state, pov }),
                        Err(error) => Err(error),
                    },
                    Err(error) => Err(error),
                }
            } else {
                Err(DecodeError::Invalid)
            },
            Err(error) => Err(error),
        }
    }

    fn encode(&self) -> (out: Vec<u8>) {
        let mut out: Vec<u8> = Vec::new();
        match *self {
            ServerEvent::Pong => put_u32(&mut out, 0),
            ServerEvent::State { state, pov } => {
                put_u32(&mut out, 1);
                put_state(&mut out, state);
                put_player(&mut out, pov);
            },
        }
        assert(out@ =~= self.payload());
        out
    }

    fn decode(bytes: &[u8]) -> (value: Result<Self, DecodeError>) {
        let tag: u32 = match get_u32(bytes, 0) {
            Ok(tag) => tag,
            Err(error) => {
                return Err(error);
            },
        };
        if tag == 0 {
            Ok(ServerEvent::Pong)
        } else if tag == 1 {
            let state: GameState = match get_state(bytes, 4) {
                Ok(state) => state,
                Err(error) => {
                    return Err(error);
                },
            };
            match get_player(bytes, 13) {
                Ok(pov) => Ok(ServerEvent::State { state, pov }),
                Err(error) => Err(error),
            }
        } else {
            Err(DecodeError::Invalid)
        }
    }

    proof fn lemma_payload_len(&self) {
    }

    proof fn lemma_parsed_payload(&self) {
        let empty = Seq::<u8>::empty();
        match *self {
            ServerEvent::Pong => {
                lemma_u32_at(empty, 0, empty);
                assert(self.payload() =~= empty + be_bytes(0) + empty);
            },
            ServerEvent::State { state, pov } => {
                let side = be_bytes(player_tag(pov));
                lemma_u32_at(empty, 1, state_bytes(state) + side);
                assert(self.payload() =~= empty + be_bytes(1) + (state_bytes(state) + side));
                lemma_state_at(be_bytes(1), state, side);
                lemma_player_at(be_bytes(1) + state_bytes(state), pov, empty);
                assert(self.payload() =~= be_bytes(1) + state_bytes(state) + side + empty);
            },
        }
    }
}

} // verus!
