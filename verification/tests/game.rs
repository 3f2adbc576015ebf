use game_client::game::Game;
use game_client::protocol::{GameState, Player, ServerEvent};

fn position(turn: u32, to_move: Player, finished: bool) -> GameState {
    GameState { turn, to_move, finished }
}

fn sent_to(pov: Player, state: GameState) -> ServerEvent {
    ServerEvent::State { state, pov }
}

#[test]
fn a_new_game_view_knows_nothing() {
    let game = Game::new();
    assert_eq!(game, Game { snapshot: None, identity: None, move_sent: false });
    assert!(!game.game_in_progress());
    assert!(!game.can_send_move());
    assert_eq!(game.pov(), None);
}

#[test]
fn a_position_sets_snapshot_and_side() {
    let mut game = Game::new();
    game.apply(sent_to(Player::Blue, position(1, Player::Red, false)));
    assert_eq!(game.snapshot, Some(position(1, Player::Red, false)));
    assert_eq!(game.identity, Some(Player::Blue));
    assert!(game.game_in_progress());
    assert_eq!(game.pov(), Some(Player::Blue));
    assert!(!game.can_send_move());
    game.apply(sent_to(Player::Blue, position(2, Player::Blue, false)));
    assert!(game.can_send_move());
}

#[test]
fn pong_changes_nothing() {
    let mut game = Game::new();
    game.apply(ServerEvent::Pong);
    assert_eq!(game, Game::new());
    game.apply(sent_to(Player::Red, position(4, Player::Red, false)));
    game.move_sent = true;
    let before = game;
    game.apply(ServerEvent::Pong);
    assert_eq!(game, before);
}

#[test]
fn the_guard_falls_on_a_new_turn_only() {
    let mut game = Game::new();
    game.apply(sent_to(Player::Red, position(4, Player::Red, false)));
    assert!(game.can_send_move());
    game.move_sent = true;
    assert!(!game.can_send_move());
    game.apply(sent_to(Player::Red, position(4, Player::Red, false)));
    assert!(game.move_sent);
    assert!(!game.can_send_move());
    game.apply(sent_to(Player::Red, position(5, Player::Blue, false)));
    assert!(!game.move_sent);
    assert!(!game.can_send_move());
    game.apply(sent_to(Player::Red, position(6, Player::Red, false)));
    assert!(game.can_send_move());
}

#[test]
fn the_guard_falls_when_the_game_ends() {
    let mut game = Game::new();
    game.apply(sent_to(Player::Red, position(4, Player::Red, false)));
    game.move_sent = true;
    game.apply(sent_to(Player::Red, position(4, Player::Red, true)));
    assert!(!game.move_sent);
    assert!(!game.game_in_progress());
    assert!(!game.can_send_move());
    assert_eq!(game.pov(), None);
    assert_eq!(game.snapshot, Some(position(4, Player::Red, true)));
}

#[test]
fn the_guard_falls_on_the_first_position() {
    let mut game = Game { snapshot: None, identity: None, move_sent: true };
    game.apply(sent_to(Player::Blue, position(0, Player::Blue, false)));
    assert!(!game.move_sent);
    assert!(game.can_send_move());
}

#[test]
fn no_move_while_the_other_side_is_to_move() {
    let mut game = Game::new();
    game.apply(sent_to(Player::Red, position(1, Player::Blue, false)));
    assert!(game.game_in_progress());
    assert!(!game.can_send_move());
}

#[test]
fn no_move_without_a_side() {
    let game = Game {
        snapshot: Some(position(1, Player::Red, false)),
        identity: None,
        move_sent: false,
    };
    assert!(game.game_in_progress());
    assert!(!game.can_send_move());
    assert_eq!(game.pov(), None);
}
