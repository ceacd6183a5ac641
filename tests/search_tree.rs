use lits::board::Board;
use lits::ltp::LtpCommand;
use lits::moves::TETROMINO_RANGE;
use lits::search::{solve_from_children, Outcome, SearcherEvent};
use lits::tetromino::Tetromino;
use lits::tree::SearchTree;

#[test]
fn solver_verdicts() {
    assert_eq!(solve_from_children(&vec![Some(Outcome::Win), Some(Outcome::Loss), None]), Some(Outcome::Win));
    assert_eq!(solve_from_children(&vec![Some(Outcome::Win), Some(Outcome::Win)]), Some(Outcome::Loss));
    assert_eq!(solve_from_children(&vec![Some(Outcome::Win), None]), None);
    assert_eq!(solve_from_children(&vec![]), None);
    assert_eq!(Outcome::Win.next(), Outcome::Loss);
    assert!(SearcherEvent::Start.as_bool());
    assert!(!SearcherEvent::Finish.as_bool());
}

#[test]
fn tree_visit_accounting() {
    let board = Board::blank();
    let mut tree = SearchTree::new(board.clone(), 0);
    let steps = tree.expand(0, vec![7, 8, 9], vec![None, None, None], vec![board.clone(), board.clone(), board.clone()], false).unwrap();
    assert_eq!(steps.len(), 1);
    assert_eq!(tree.visits(0), 1);
    assert_eq!(tree.children(0), (1, 3));
    assert_eq!(tree.parent(2), Some(0));
    assert_eq!(tree.action(3), 9);
    let steps = tree.expand(2, vec![4, 5], vec![Some(Outcome::Win), Some(Outcome::Loss)], vec![board.clone(), board.clone()], true).unwrap();
    assert_eq!(steps.iter().map(|s| s.node).collect::<Vec<_>>(), vec![2, 0]);
    assert_eq!(steps[0].solved, Some(Outcome::Win));
    assert_eq!(tree.outcome(2), Some(Outcome::Win));
    assert_eq!(tree.visits(0), 2);
    assert_eq!(tree.visits(2), 1);
    let sum: u64 = (1..4).map(|c| tree.visits(c)).sum();
    assert_eq!(tree.visits(0), sum + 1);
    let again = tree.revisit(2, true).unwrap();
    assert_eq!(again.len(), 2);
    assert_eq!(tree.visits(0), 3);
    assert!(tree.expand(2, vec![1], vec![None], vec![board.clone()], false).is_none());
    assert!(tree.revisit(1, false).is_none());
    assert!(tree.revisit(0, false).is_none());
    assert!(tree.expand(1, vec![1, 2], vec![None], vec![board.clone()], false).is_none());
    assert_eq!(tree.len(), 6);
    assert!(tree.is_unvisited(1));
}

#[test]
fn move_table_bijection() {
    let table = Tetromino::initialize();
    assert_eq!(table.range(), TETROMINO_RANGE);
    let null = table.tetromino(0).unwrap();
    assert!(null.is_null());
    assert_eq!(table.id_of(&Tetromino::null()), Some(0));
    for id in [1usize, 2, 500, 1292] {
        let t = table.tetromino(id).unwrap();
        assert_eq!(table.id_of(&t), Some(id));
    }
    assert!(table.tetromino(1293).is_none());
    let first = table.tetromino(1).unwrap();
    assert_eq!(first.points_real().len(), 4);
    assert_eq!(lits::notate::Notate::notate(&first), "L[00,01,02,12]");
}

#[test]
fn protocol_words() {
    assert_eq!(LtpCommand::GenMove.command(), "gen-move");
    assert_eq!(LtpCommand::ApplySetupPosition.command(), "setup-position");
    assert_eq!(LtpCommand::Undo.command(), "undo-move");
    assert!(LtpCommand::AnalyzePosition.expects_response());
    assert!(!LtpCommand::NewGame.expects_response());
}

#[test]
fn solver_marks_forced_win() {
    let board = Board::blank();
    let mut tree = SearchTree::new(board.clone(), 0);
    let steps = tree.expand(0, vec![42], vec![Some(Outcome::Loss)], vec![board.clone()], true).unwrap();
    assert_eq!(steps.len(), 1);
    assert_eq!(steps[0].solved, Some(Outcome::Win));
    assert_eq!(tree.outcome(0), Some(Outcome::Win));
    assert_eq!(tree.visits(0), 1);
}

#[test]
fn expansion_children_in_move_order() {
    let table = Tetromino::initialize();
    let board = Board::blank();
    let (actions, outcomes, states) = board.expansion(&table);
    assert_eq!(actions.len(), 1292);
    assert_eq!(outcomes.len(), 1292);
    assert_eq!(states.len(), 1292);
    assert_eq!(actions[0], 1);
    assert_eq!(actions[1291], 1292);
    assert!(outcomes.iter().all(|o| o.is_none()));
    assert_eq!(states[0].to_move(), lits::player::Player::O);
    assert_eq!(states[0].colour_at(0, 0), lits::colour::Colour::L);
}
