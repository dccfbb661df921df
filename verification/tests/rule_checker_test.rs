use gomoku::board::{Board, Coord, MoveDirection, Step};
use gomoku::cross_point::ChessType;
use gomoku::rule_checker::RuleChecker;

#[test]
fn empty_board_has_no_winner() {
    let checker = RuleChecker::new();
    assert_eq!(checker.get_winner(), None);
}

#[test]
fn five_in_a_row_wins() {
    // row 7, columns 3..=7 filled with black
    let mut board = Board::new();
    for col in 3..8 {
        let index = Coord { row: 7, col }.to_index(board.size());
        board.put_chess_at(index, ChessType::CtBlack).unwrap();
    }
    let checker = RuleChecker::create_with_board(&board);
    assert_eq!(checker.get_winner(), Some(ChessType::CtBlack));
}

#[test]
fn five_in_a_row_wins_for_white_too() {
    let mut board = Board::new();
    for col in 3..8 {
        let index = Coord { row: 7, col }.to_index(board.size());
        board.put_chess_at(index, ChessType::CtWhite).unwrap();
    }
    let checker = RuleChecker::create_with_board(&board);
    assert_eq!(checker.get_winner(), Some(ChessType::CtWhite));
}

#[test]
fn four_in_a_row_does_not_win() {
    // row 7, columns 3..=6 only
    let mut board = Board::new();
    for col in 3..7 {
        let index = Coord { row: 7, col }.to_index(board.size());
        board.put_chess_at(index, ChessType::CtBlack).unwrap();
    }
    let checker = RuleChecker::create_with_board(&board);
    assert_eq!(checker.get_winner(), None);
}

#[test]
fn vertical_and_diagonal_runs_win() {
    // vertical: column 2, rows 4..=8
    let mut board = Board::new();
    for row in 4..9 {
        let index = Coord { row, col: 2 }.to_index(board.size());
        board.put_chess_at(index, ChessType::CtWhite).unwrap();
    }
    let checker = RuleChecker::create_with_board(&board);
    assert_eq!(checker.get_winner(), Some(ChessType::CtWhite));

    // down-right diagonal from (1, 1)
    let mut board = Board::new();
    for k in 0..5 {
        let index = Coord { row: 1 + k, col: 1 + k }.to_index(board.size());
        board.put_chess_at(index, ChessType::CtBlack).unwrap();
    }
    let checker = RuleChecker::create_with_board(&board);
    assert_eq!(checker.get_winner(), Some(ChessType::CtBlack));

    // down-left diagonal on the smallest board: (0,4) (1,3) (2,2) (3,1) (4,0)
    let mut board = Board::create_by_size(5);
    for k in 0..5 {
        let index = Coord { row: k, col: 4 - k }.to_index(board.size());
        board.put_chess_at(index, ChessType::CtBlack).unwrap();
    }
    let checker = RuleChecker::create_with_board(&board);
    assert_eq!(checker.get_winner(), Some(ChessType::CtBlack));
}

#[test]
fn first_completed_line_in_scan_order_decides() {
    // two completed runs of different colors: the horizontal block is
    // scanned row-major, so the black run on row 0 is met first
    let mut board = Board::new();
    for col in 0..5 {
        let index = Coord { row: 0, col }.to_index(board.size());
        board.put_chess_at(index, ChessType::CtBlack).unwrap();
    }
    for col in 0..5 {
        let index = Coord { row: 1, col }.to_index(board.size());
        board.put_chess_at(index, ChessType::CtWhite).unwrap();
    }
    let checker = RuleChecker::create_with_board(&board);
    assert_eq!(checker.get_winner(), Some(ChessType::CtBlack));
}

#[test]
fn tuple_count_matches_formula() {
    // 2*N*(N-4) + 2*(N-4)*(N-4) candidate lines for a size-N board
    for size in [5usize, 6, 9, 15] {
        let board = Board::create_by_size(size);
        let checker = RuleChecker::create_with_board(&board);
        let n = size;
        let t = n - 4;
        assert_eq!(checker.tuple_count(), 2 * n * t + 2 * t * t);
    }
    assert_eq!(RuleChecker::new().tuple_count(), 572);
}

#[test]
fn boards_too_small_for_a_run_have_no_tuples() {
    for size in [0usize, 1, 2, 3, 4] {
        let board = Board::create_by_size(size);
        let checker = RuleChecker::create_with_board(&board);
        assert_eq!(checker.tuple_count(), 0);
        assert_eq!(checker.get_winner(), None);
    }
}

#[test]
fn checker_judges_its_snapshot_not_later_mutations() {
    // the checker holds a private snapshot: mutating the caller's board
    // afterwards is not observed until a new checker is built
    let mut board = Board::new();
    let checker = RuleChecker::create_with_board(&board);
    let mut steps: Vec<Step> = Vec::new();
    for col in 0..5 {
        let coord = Coord { row: 7, col };
        board.put_chess_at(coord.to_index(board.size()), ChessType::CtBlack).unwrap();
        steps.push(Step { coord, chess: ChessType::CtBlack });
    }
    assert_eq!(checker.get_winner(), None);
    let rebuilt = RuleChecker::create_with_board(&board);
    assert_eq!(rebuilt.get_winner(), Some(ChessType::CtBlack));
    assert_eq!(steps.len(), 5);
}

#[test]
fn removing_a_piece_breaks_the_run() {
    let mut board = Board::new();
    for col in 3..8 {
        let index = Coord { row: 7, col }.to_index(board.size());
        board.put_chess_at(index, ChessType::CtBlack).unwrap();
    }
    let middle = Coord { row: 7, col: 5 }.to_index(board.size());
    board.remove_chess_at(middle).unwrap();
    let checker = RuleChecker::create_with_board(&board);
    assert_eq!(checker.get_winner(), None);

    // overriding the gap with the other color still completes no line
    board.override_chess_at(middle, ChessType::CtWhite).unwrap();
    let checker = RuleChecker::create_with_board(&board);
    assert_eq!(checker.get_winner(), None);

    // restoring the black piece restores the win
    board.override_chess_at(middle, ChessType::CtBlack).unwrap();
    let checker = RuleChecker::create_with_board(&board);
    assert_eq!(checker.get_winner(), Some(ChessType::CtBlack));
}

#[test]
fn neighbor_moves_match_coordinate_arithmetic() {
    let b = Board::new();
    let size = b.size();
    let center = Coord { row: 7, col: 7 }.to_index(size);

    assert_eq!(
        b.move_by_direction(center, MoveDirection::MdUp).unwrap(),
        Coord { row: 6, col: 7 }.to_index(size)
    );
    assert_eq!(
        b.move_by_direction(center, MoveDirection::MdDown).unwrap(),
        Coord { row: 8, col: 7 }.to_index(size)
    );
    assert_eq!(
        b.move_by_direction(center, MoveDirection::MdLeft).unwrap(),
        Coord { row: 7, col: 6 }.to_index(size)
    );
    assert_eq!(
        b.move_by_direction(center, MoveDirection::MdRight).unwrap(),
        Coord { row: 7, col: 8 }.to_index(size)
    );
    assert_eq!(
        b.move_by_direction(center, MoveDirection::MdUpLeft).unwrap(),
        Coord { row: 6, col: 6 }.to_index(size)
    );
    assert_eq!(
        b.move_by_direction(center, MoveDirection::MdUpRight).unwrap(),
        Coord { row: 6, col: 8 }.to_index(size)
    );
    assert_eq!(
        b.move_by_direction(center, MoveDirection::MdDownLeft).unwrap(),
        Coord { row: 8, col: 6 }.to_index(size)
    );
    assert_eq!(
        b.move_by_direction(center, MoveDirection::MdDownRight).unwrap(),
        Coord { row: 8, col: 8 }.to_index(size)
    );
}
