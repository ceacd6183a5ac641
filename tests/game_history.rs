use lits::board::Board;
use lits::colour::Colour;
use lits::error::LitsError;
use lits::game::Game;
use lits::notate::Notate;
use lits::player::Player;
use lits::tetromino::Tetromino;

fn t(s: &str) -> Tetromino {
    Tetromino::parse(s).unwrap()
}

#[test]
fn apply_undo_redo() {
    let mut game = Game::new();
    assert_eq!(game.to_move(), Player::X);
    let a = t("L[00,01,02,12]");
    let b = t("I[10,20,30,40]");
    game.apply(&a).unwrap();
    game.apply(&b).unwrap();
    assert_eq!(game.get_history().len(), 2);
    assert_eq!(game.to_move(), Player::X);
    game.undo().unwrap();
    assert_eq!(game.get_history().len(), 1);
    assert_eq!(game.get_future().len(), 1);
    assert_eq!(game.to_move(), Player::O);
    game.apply(&b).unwrap();
    assert!(game.get_future().is_empty());
    game.undo().unwrap();
    game.undo().unwrap();
    assert_eq!(game.get_future().len(), 2);
    let c = t("T[55,65,75,66]");
    game.apply(&c).unwrap();
    assert!(game.get_future().is_empty());
    assert_eq!(game.undo(), Ok(()));
    assert_eq!(game.undo(), Err(LitsError::HistoryEmpty));
    assert_eq!(game.get_board().notate(), Board::blank().notate());
}

#[test]
fn illegal_apply_changes_nothing() {
    let mut game = Game::new();
    game.apply(&t("L[00,01,02,12]")).unwrap();
    let before = game.notate();
    assert_eq!(game.apply(&t("L[10,20,30,31]")), Err(LitsError::SameColourAdjacent));
    assert_eq!(game.notate(), before);
}

#[test]
fn setup_tiles_and_notation() {
    let mut game = Game::new();
    game.set_scoring_tile(0, 0, &Player::X);
    assert_eq!(game.get_board_base().player_at(0, 0), Player::X);
    assert_eq!(game.get_board().player_at(0, 0), Player::X);
    game.cycle_player(1, 1);
    assert_eq!(game.get_board().player_at(1, 1), Player::X);
    game.cycle_colour(9, 9);
    assert_eq!(game.get_board().colour_at(9, 9), Colour::L);
    let mut g2 = Game::new();
    g2.apply(&t("L[00,01,02,12]")).unwrap();
    g2.apply(&t("I[10,20,30,40]")).unwrap();
    g2.undo().unwrap();
    let text = g2.notate();
    assert_eq!(text, format!("{},5555,X\nL[00,01,02,12]\nI[10,20,30,40]", "0".repeat(100)));
    let parsed = Game::parse(&text).unwrap();
    assert_eq!(parsed.get_history().len(), 2);
    assert_eq!(parsed.to_move(), Player::X);
    assert_eq!(Game::parse("nonsense").err(), Some(LitsError::Parse));
    let bad = format!("{},5555,X\nL[00,01,02,12]\nL[10,20,30,31]", "0".repeat(100));
    assert_eq!(Game::parse(&bad).err(), Some(LitsError::SameColourAdjacent));
    let from = Game::from_setup(Board::blank());
    assert!(from.get_history().is_empty());
}
