use lits::board::Board;
use lits::colour::Colour;
use lits::error::LitsError;
use lits::moves::TETROMINO_RANGE;
use lits::notate::Notate;
use lits::outcome::Outcome;
use lits::player::Player;
use lits::point::Point;
use lits::tetromino::Tetromino;
use lits::transform::Transform;

fn tet(colour: Colour, pts: &[(i32, i32)]) -> Tetromino {
    let points: Vec<Point> = pts.iter().map(|&(x, y)| Point::new(x, y)).collect();
    Tetromino::from_points_with_colour(&colour, &points).unwrap()
}

fn attach_grid(b: &Board) -> Vec<bool> {
    let mut v = Vec::new();
    for x in 0..10 {
        for y in 0..10 {
            v.push(b.point_attach_exists(&Point::new(x, y)));
        }
    }
    v
}

#[test]
fn empty_board_move_count() {
    let board = Board::blank();
    assert_eq!(board.enumerate_moves().len(), 1292);
    let table = Tetromino::initialize();
    assert_eq!(table.range(), TETROMINO_RANGE);
    assert_eq!(Tetromino::range(&table), 1293);
}

#[test]
fn enumerated_moves_all_validate_and_are_sorted() {
    let mut board = Board::blank();
    board.place_tetromino(&tet(Colour::L, &[(0, 0), (0, 1), (0, 2), (1, 2)])).unwrap();
    let moves = board.enumerate_moves();
    assert!(!moves.is_empty());
    for m in &moves {
        assert_eq!(board.validate_tetromino(m), Ok(()));
    }
    for w in moves.windows(2) {
        assert!(w[0] != w[1]);
    }
    // A legal move found by brute force over all placements is enumerated.
    let mut count = 0;
    for colour in [Colour::L, Colour::I, Colour::T, Colour::S] {
        for x in 0..10 {
            for y in 0..10 {
                for t in Transform::enumerate(&colour) {
                    let cand = Tetromino::new(&colour, &Point::new(x, y), &t);
                    if board.validate_tetromino(&cand).is_ok() {
                        count += 1;
                        assert!(moves.contains(&cand));
                    }
                }
            }
        }
    }
    assert_eq!(count, moves.len());
}

#[test]
fn adjacency_rule() {
    let mut board = Board::blank();
    board.place_tetromino(&tet(Colour::L, &[(0, 0), (0, 1), (0, 2), (1, 2)])).unwrap();
    let next = tet(Colour::L, &[(1, 0), (2, 0), (3, 0), (3, 1)]);
    assert_eq!(board.validate_tetromino(&next), Err(LitsError::SameColourAdjacent));
    assert_eq!(board.place_tetromino(&next), Err(LitsError::SameColourAdjacent));
    let other = tet(Colour::I, &[(1, 0), (2, 0), (3, 0), (4, 0)]);
    assert_eq!(board.validate_tetromino(&other), Ok(()));
}

#[test]
fn o_rule() {
    let mut board = Board::blank();
    board.place_tetromino(&tet(Colour::I, &[(0, 0), (0, 1), (0, 2), (0, 3)])).unwrap();
    let t = tet(Colour::T, &[(1, 0), (1, 1), (1, 2), (2, 1)]);
    assert_eq!(board.validate_tetromino(&t), Err(LitsError::FormsO));
    let mut covered = t.points_real();
    covered.push(Point::new(0, 0));
    assert!(board.tetromino_attach_forms_o(&t.points_real()));
}

#[test]
fn attach_index_round_trip() {
    let mut board = Board::blank();
    board.place_tetromino(&tet(Colour::S, &[(4, 4), (5, 4), (5, 5), (6, 5)])).unwrap();
    let before = board.clone();
    let before_grid = attach_grid(&board);
    let piece = tet(Colour::T, &[(3, 3), (3, 4), (3, 5), (2, 4)]);
    board.place_tetromino(&piece).unwrap();
    assert_ne!(attach_grid(&board), before_grid);
    board.undo_tetromino(&piece).unwrap();
    assert_eq!(attach_grid(&board), before_grid);
    assert_eq!(board.notate(), before.notate());
    let mut scratch = board.clone();
    scratch.calculate_attach_points_from_scratch();
    assert_eq!(attach_grid(&scratch), attach_grid(&board));
    board.undo_tetromino(&tet(Colour::S, &[(4, 4), (5, 4), (5, 5), (6, 5)])).unwrap();
    assert_eq!(attach_grid(&board), vec![true; 100]);
    assert_eq!(board.notate(), Board::blank().notate());
}

#[test]
fn place_then_undo_keeps_side_to_move() {
    let mut board = Board::blank();
    assert_eq!(board.to_move(), Player::X);
    let piece = tet(Colour::I, &[(2, 2), (2, 3), (2, 4), (2, 5)]);
    board.place_tetromino(&piece).unwrap();
    assert_eq!(board.to_move(), Player::O);
    assert_eq!(board.remaining_of(&Colour::I), 4);
    board.undo_tetromino(&piece).unwrap();
    assert_eq!(board.to_move(), Player::X);
    assert_eq!(board.remaining_of(&Colour::I), 5);
}

#[test]
fn validation_errors() {
    let mut board = Board::blank();
    let off = Tetromino::new(&Colour::I, &Point::new(0, 8), &Transform::Identity);
    assert_eq!(board.validate_tetromino(&off), Err(LitsError::OutOfBounds));
    let first = tet(Colour::L, &[(0, 0), (0, 1), (0, 2), (1, 2)]);
    board.place_tetromino(&first).unwrap();
    let overlap = tet(Colour::I, &[(0, 2), (1, 2), (2, 2), (3, 2)]);
    assert_eq!(board.validate_tetromino(&overlap), Err(LitsError::Overlap));
    let far = tet(Colour::I, &[(9, 6), (9, 7), (9, 8), (9, 9)]);
    assert_eq!(board.validate_tetromino(&far), Err(LitsError::NoAttach));
    let far_l = tet(Colour::L, &[(9, 6), (9, 7), (9, 8), (8, 8)]);
    assert_eq!(board.undo_tetromino(&far_l), Err(LitsError::PieceNotOnBoard));
    assert_eq!(board.undo_tetromino(&overlap), Err(LitsError::NoRemainingUndo));
}

#[test]
fn no_copies_left() {
    let score = vec![vec![Player::Neither; 10]; 10];
    let pieces = vec![vec![Colour::Empty; 10]; 10];
    let board = Board::new(&score, &pieces, &vec![0, 5, 5, 5], Player::X).unwrap();
    let l = tet(Colour::L, &[(0, 0), (0, 1), (0, 2), (1, 2)]);
    assert_eq!(board.validate_tetromino(&l), Err(LitsError::NoSuchPiece));
    assert_eq!(board.enumerate_moves().len(), 1292 - 576);
    let bad = Board::new(&score, &pieces, &vec![6, 5, 5, 5], Player::X);
    assert_eq!(bad.err(), Some(LitsError::InvalidPieceCount));
}

#[test]
fn score_and_result() {
    let mut score = vec![vec![Player::Neither; 10]; 10];
    score[0][0] = Player::X;
    score[0][1] = Player::X;
    score[5][5] = Player::O;
    let pieces = vec![vec![Colour::Empty; 10]; 10];
    let mut board = Board::new(&score, &pieces, &vec![5, 5, 5, 5], Player::X).unwrap();
    assert_eq!(board.score(), 1);
    assert_eq!(board.result(), Outcome::InProgress);
    board.place_tetromino(&tet(Colour::I, &[(0, 0), (0, 1), (0, 2), (0, 3)])).unwrap();
    assert_eq!(board.score(), -1);
    assert_eq!(board.player_at(5, 5), Player::O);
    assert_eq!(board.colour_at(0, 1), Colour::I);
}

#[test]
fn result_when_no_move_is_left() {
    let score = vec![vec![Player::Neither; 10]; 10];
    let pieces = vec![vec![Colour::Empty; 10]; 10];
    let board = Board::new(&score, &pieces, &vec![0, 0, 0, 0], Player::O).unwrap();
    assert!(!board.has_moves());
    assert_eq!(board.result(), Outcome::X(0));
    let mut score2 = score.clone();
    score2[3][3] = Player::O;
    let board2 = Board::new(&score2, &pieces, &vec![0, 0, 0, 0], Player::O).unwrap();
    assert_eq!(board2.result(), Outcome::O(-1));
    assert_eq!(board.finished_outcome(), Some(lits::search::Outcome::Loss));
    assert_eq!(board2.finished_outcome(), Some(lits::search::Outcome::Win));
    assert_eq!(Board::blank().finished_outcome(), None);
}

#[test]
fn board_notation_round_trip() {
    let blank = Board::blank();
    let text = blank.notate();
    assert_eq!(text, format!("{},5555,X", "0".repeat(100)));
    let mut board = Board::blank();
    board.set_scoring_tile(0, 5, &Player::X);
    board.set_scoring_tile(1, 0, &Player::O);
    board.place_tetromino(&tet(Colour::T, &[(0, 4), (0, 5), (0, 6), (1, 5)])).unwrap();
    let text = board.notate();
    assert_eq!(text.len(), 107);
    assert_eq!(&text[4..7], "383");
    assert_eq!(&text[10..11], "a");
    assert_eq!(&text[100..], ",5545,O");
    let parsed = Board::parse(&text).unwrap();
    assert_eq!(parsed.notate(), text);
    assert_eq!(Board::parse("0,5555,X").err(), Some(LitsError::Parse));
    let bad = format!("{},5565,X", "0".repeat(100));
    assert_eq!(Board::parse(&bad).err(), Some(LitsError::Parse));
    let null_side = format!("{},5555,_", "0".repeat(100));
    assert_eq!(Board::parse(&null_side).err(), Some(LitsError::Parse));
}

#[test]
fn tile_notation() {
    assert_eq!(Board::parse_tile("0"), Ok((Player::Neither, Colour::Empty)));
    assert_eq!(Board::parse_tile("7"), Ok((Player::X, Colour::I)));
    assert_eq!(Board::parse_tile("e"), Ok((Player::O, Colour::S)));
    assert_eq!(Board::parse_tile("f"), Err(LitsError::Parse));
    let mut board = Board::blank();
    board.set_scoring_tile(2, 3, &Player::O);
    assert_eq!(board.notate_tile(2, 3), "a");
}

#[test]
fn setup_cycles() {
    let mut board = Board::blank();
    board.cycle_colour(4, 4);
    assert_eq!(board.colour_at(4, 4), Colour::L);
    assert!(board.point_attach_exists(&Point::new(4, 5)));
    assert!(!board.point_attach_exists(&Point::new(4, 4)));
    assert!(!board.point_attach_exists(&Point::new(7, 7)));
    board.cycle_player(1, 1);
    assert_eq!(board.player_at(1, 1), Player::X);
    board.cycle_player(1, 1);
    assert_eq!(board.player_at(1, 1), Player::O);
    board.cycle_player(1, 1);
    assert_eq!(board.player_at(1, 1), Player::Neither);
}

#[test]
fn same_colour_neighbour_query() {
    let mut board = Board::blank();
    board.place_tetromino(&tet(Colour::L, &[(0, 0), (0, 1), (0, 2), (1, 2)])).unwrap();
    assert!(board.point_attach_same_colour(&Point::new(1, 0), &Colour::L));
    assert!(!board.point_attach_same_colour(&Point::new(1, 0), &Colour::I));
    assert!(!board.point_attach_same_colour(&Point::new(5, 5), &Colour::L));
    let placed = tet(Colour::L, &[(0, 0), (0, 1), (0, 2), (1, 2)]);
    assert!(board.tetromino_exists(&placed));
}

#[test]
fn same_colour_query_ignores_off_board_cells() {
    let mut board = Board::blank();
    board.cycle_colour(1, 0);
    board.cycle_colour(0, 1);
    assert!(!board.point_attach_same_colour(&Point::new(0, 0), &Colour::Empty));
    assert!(board.point_attach_same_colour(&Point::new(5, 5), &Colour::Empty));
    assert!(board.point_attach_same_colour(&Point::new(0, 0), &Colour::L));
}
