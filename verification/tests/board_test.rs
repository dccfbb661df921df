use gomoku::board::{Board, Coord, MoveDirection};
use gomoku::cross_point::ChessType;
use gomoku::utils::ErrorKind;

#[test]
fn index_valid() {
    let b = Board::new();

    for index in 0..300 {
        if index < b.cp_count() {
            assert_eq!(b.is_index_valid(index), true);
        } else {
            assert_eq!(b.is_index_valid(index), false);
        }
    }
}

#[test]
fn chess() {
    for size in 1..20 {
        let mut b = Board::create_by_size(size);

        for index in 0..b.cp_count() {
            assert_eq!(b.have_chess_at(index).unwrap(), false);
            assert_eq!(b.get_chess_at(index).unwrap(), None);

            b.clear_at(index).unwrap();
            assert_eq!(b.have_chess_at(index).unwrap(), false);
            assert_eq!(b.get_chess_at(index).unwrap(), None);

            b.put_chess_at(index, ChessType::CtBlack).unwrap();
            assert_eq!(b.have_chess_at(index).unwrap(), true);
            assert_eq!(b.get_chess_at(index).unwrap(), Some(ChessType::CtBlack));

            b.remove_chess_at(index).unwrap();
            assert_eq!(b.have_chess_at(index).unwrap(), false);
            assert_eq!(b.get_chess_at(index).unwrap(), None);

            b.put_chess_at(index, ChessType::CtWhite).unwrap();
            assert_eq!(b.have_chess_at(index).unwrap(), true);
            assert_eq!(b.get_chess_at(index).unwrap(), Some(ChessType::CtWhite));

            b.override_chess_at(index, ChessType::CtBlack).unwrap();
            assert_eq!(b.have_chess_at(index).unwrap(), true);
            assert_eq!(b.get_chess_at(index).unwrap(), Some(ChessType::CtBlack));

            b.override_chess_at(index, ChessType::CtWhite).unwrap();
            assert_eq!(b.have_chess_at(index).unwrap(), true);
            assert_eq!(b.get_chess_at(index).unwrap(), Some(ChessType::CtWhite));

            b.clear_at(index).unwrap();
            assert_eq!(b.have_chess_at(index).unwrap(), false);
            assert_eq!(b.get_chess_at(index).unwrap(), None);
        }
    }
}

#[test]
fn move_valid() {
    let b = Board::new();

    for row in 1..14 {
        for col in 1..14 {
            let index = Coord { row, col }.to_index(b.size());

            assert_eq!(
                b.move_by_direction(index, MoveDirection::MdUp).unwrap(),
                Coord { row: row - 1, col }.to_index(b.size())
            );
            assert_eq!(
                b.move_by_direction(index, MoveDirection::MdDown).unwrap(),
                Coord { row: row + 1, col }.to_index(b.size())
            );
            assert_eq!(
                b.move_by_direction(index, MoveDirection::MdLeft).unwrap(),
                Coord { row, col: col - 1 }.to_index(b.size())
            );
            assert_eq!(
                b.move_by_direction(index, MoveDirection::MdRight).unwrap(),
                Coord { row, col: col + 1 }.to_index(b.size())
            );
            assert_eq!(
                b.move_by_direction(index, MoveDirection::MdUpLeft).unwrap(),
                Coord { row: row - 1, col: col - 1 }.to_index(b.size())
            );
            assert_eq!(
                b.move_by_direction(index, MoveDirection::MdUpRight).unwrap(),
                Coord { row: row - 1, col: col + 1 }.to_index(b.size())
            );
            assert_eq!(
                b.move_by_direction(index, MoveDirection::MdDownLeft).unwrap(),
                Coord { row: row + 1, col: col - 1 }.to_index(b.size())
            );
            assert_eq!(
                b.move_by_direction(index, MoveDirection::MdDownRight).unwrap(),
                Coord { row: row + 1, col: col + 1 }.to_index(b.size())
            );
        }
    }
}

#[test]
fn move_invalid() {
    let b = Board::new();

    for i in 0..15 {
        let index = Coord { row: 0, col: i }.to_index(b.size());
        assert_eq!(b.move_by_direction(index, MoveDirection::MdUp).is_err(), true);
        assert_eq!(b.move_by_direction(index, MoveDirection::MdUpLeft).is_err(), true);
        assert_eq!(b.move_by_direction(index, MoveDirection::MdUpRight).is_err(), true);

        let index = Coord { row: 14, col: i }.to_index(b.size());
        assert_eq!(b.move_by_direction(index, MoveDirection::MdDown).is_err(), true);
        assert_eq!(b.move_by_direction(index, MoveDirection::MdDownLeft).is_err(), true);
        assert_eq!(b.move_by_direction(index, MoveDirection::MdDownRight).is_err(), true);

        let index = Coord { row: i, col: 0 }.to_index(b.size());
        assert_eq!(b.move_by_direction(index, MoveDirection::MdLeft).is_err(), true);
        assert_eq!(b.move_by_direction(index, MoveDirection::MdUpLeft).is_err(), true);
        assert_eq!(b.move_by_direction(index, MoveDirection::MdDownLeft).is_err(), true);

        let index = Coord { row: i, col: 14 }.to_index(b.size());
        assert_eq!(b.move_by_direction(index, MoveDirection::MdRight).is_err(), true);
        assert_eq!(b.move_by_direction(index, MoveDirection::MdUpRight).is_err(), true);
        assert_eq!(b.move_by_direction(index, MoveDirection::MdDownRight).is_err(), true);
    }
}

#[test]
fn board_error_kinds_are_distinct() {
    let mut b = Board::new();

    // index out of range, on a query and on a mutation
    match b.get_chess_at(300) {
        Err(e) => assert_eq!(e.kind, ErrorKind::IndexInvalid),
        Ok(_) => panic!("expected an index error"),
    }
    match b.put_chess_at(225, ChessType::CtBlack) {
        Err(e) => assert_eq!(e.kind, ErrorKind::IndexInvalid),
        Ok(_) => panic!("expected an index error"),
    }
    match b.move_by_direction(300, MoveDirection::MdUp) {
        Err(e) => assert_eq!(e.kind, ErrorKind::IndexInvalid),
        Ok(_) => panic!("expected an index error"),
    }

    // state conflicts on a valid index
    b.put_chess_at(0, ChessType::CtBlack).unwrap();
    match b.put_chess_at(0, ChessType::CtWhite) {
        Err(e) => assert_eq!(e.kind, ErrorKind::StateConflict),
        Ok(_) => panic!("expected a state conflict"),
    }
    assert_eq!(b.get_chess_at(0).unwrap(), Some(ChessType::CtBlack));
    b.remove_chess_at(0).unwrap();
    match b.remove_chess_at(0) {
        Err(e) => assert_eq!(e.kind, ErrorKind::StateConflict),
        Ok(_) => panic!("expected a state conflict"),
    }

    // a move off the edge is its own kind, not an index error
    match b.move_by_direction(0, MoveDirection::MdUp) {
        Err(e) => assert_eq!(e.kind, ErrorKind::NoNeighbor),
        Ok(_) => panic!("expected a no-neighbor outcome"),
    }
}

#[test]
fn clear_at_is_idempotent_on_empty_cell() {
    let mut b = Board::new();
    assert_eq!(b.have_chess_at(42).unwrap(), false);
    b.clear_at(42).unwrap();
    assert_eq!(b.have_chess_at(42).unwrap(), false);
    b.clear_at(42).unwrap();
    assert_eq!(b.get_chess_at(42).unwrap(), None);
}

#[test]
fn coord_index_round_trip() {
    let size: usize = 15;
    let c = Coord { row: 7, col: 3 };
    let index = c.to_index(size);
    assert_eq!(index, 7 * 15 + 3);
    let back = Coord::from_index(index, size);
    assert_eq!(back, c);
}

#[test]
fn degenerate_sizes_have_no_neighbors() {
    let b0 = Board::create_by_size(0);
    assert_eq!(b0.cp_count(), 0);
    assert_eq!(b0.is_index_valid(0), false);

    let b1 = Board::create_by_size(1);
    assert_eq!(b1.cp_count(), 1);
    assert_eq!(b1.have_chess_at(0).unwrap(), false);
    assert!(b1.move_by_direction(0, MoveDirection::MdUp).is_err());
    assert!(b1.move_by_direction(0, MoveDirection::MdDown).is_err());
    assert!(b1.move_by_direction(0, MoveDirection::MdLeft).is_err());
    assert!(b1.move_by_direction(0, MoveDirection::MdRight).is_err());
    assert!(b1.move_by_direction(0, MoveDirection::MdUpLeft).is_err());
    assert!(b1.move_by_direction(0, MoveDirection::MdUpRight).is_err());
    assert!(b1.move_by_direction(0, MoveDirection::MdDownLeft).is_err());
    assert!(b1.move_by_direction(0, MoveDirection::MdDownRight).is_err());
}

#[test]
fn cell_count_is_size_squared() {
    for size in [1usize, 2, 5, 9, 15] {
        let b = Board::create_by_size(size);
        assert_eq!(b.size(), size);
        assert_eq!(b.cp_count(), size * size);
        assert_eq!(b.is_index_valid(size * size), false);
        if size * size > 0 {
            assert_eq!(b.is_index_valid(size * size - 1), true);
        }
    }
}
