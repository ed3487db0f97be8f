use ttt::position::{describe_tile, index_of, ALL_TILES};
use ttt::rules::WINNING_LINES;
use ttt::Position::{X, Y, Z};
use ttt::{Board, Player, TicTacToeError};

#[test]
fn new_board_is_empty() {
    let board = Board::new();
    for tile in ALL_TILES {
        assert_eq!(board.get(tile), None);
    }
    assert_eq!(board.occupied_count(), 0);
    assert_eq!(board.used_tiles(), vec![]);
    assert_eq!(board.empty_tiles(), ALL_TILES.to_vec());
}

#[test]
fn insert_records_the_occupant() {
    let mut board = Board::new();
    assert_eq!(board.insert((Y, Z), Player::Oh), Ok(()));
    assert_eq!(board.get((Y, Z)), Some(Player::Oh));
    assert_eq!(board.get((Z, Y)), None);
    assert_eq!(board.occupied_count(), 1);
}

#[test]
fn second_insert_on_a_tile_is_refused() {
    let mut board = Board::new();
    assert_eq!(board.insert((X, Y), Player::Ex), Ok(()));
    let before = board.clone();
    assert_eq!(
        board.insert((X, Y), Player::Oh),
        Err(TicTacToeError::ExisitingTileError((X, Y)))
    );
    assert_eq!(board.get((X, Y)), Some(Player::Ex));
    assert_eq!(board, before);
    assert_eq!(board.occupied_count(), 1);
}

#[test]
fn second_insert_of_the_same_player_is_refused_too() {
    let mut board = Board::new();
    assert_eq!(board.insert((Z, Z), Player::Oh), Ok(()));
    assert_eq!(
        board.insert((Z, Z), Player::Oh),
        Err(TicTacToeError::ExisitingTileError((Z, Z)))
    );
    assert_eq!(board.get((Z, Z)), Some(Player::Oh));
}

#[test]
fn tiles_are_listed_row_by_row() {
    let mut board = Board::new();
    board.insert((Z, X), Player::Ex).unwrap();
    board.insert((X, Z), Player::Oh).unwrap();
    board.insert((Y, Y), Player::Ex).unwrap();
    assert_eq!(board.used_tiles(), vec![(X, Z), (Y, Y), (Z, X)]);
    assert_eq!(
        board.empty_tiles(),
        vec![(X, X), (X, Y), (Y, X), (Y, Z), (Z, Y), (Z, Z)]
    );
    assert_eq!(board.occupied_count(), 3);
}

#[test]
fn full_board_has_no_empty_tile() {
    let mut board = Board::new();
    for tile in ALL_TILES {
        board.insert(tile, Player::Ex).unwrap();
    }
    assert_eq!(board.empty_tiles(), vec![]);
    assert_eq!(board.used_tiles(), ALL_TILES.to_vec());
    assert_eq!(board.occupied_count(), 9);
}

#[test]
fn all_tiles_stand_in_row_major_order() {
    assert_eq!(
        ALL_TILES,
        [(X, X), (X, Y), (X, Z), (Y, X), (Y, Y), (Y, Z), (Z, X), (Z, Y), (Z, Z)]
    );
    for (i, tile) in ALL_TILES.iter().enumerate() {
        assert_eq!(index_of(*tile), i);
    }
    assert_eq!(X.rank(), 0);
    assert_eq!(Y.rank(), 1);
    assert_eq!(Z.rank(), 2);
}

#[test]
fn line_owner_needs_three_marks_of_one_player() {
    let mut board = Board::new();
    let diagonal = [(X, X), (Y, Y), (Z, Z)];
    assert_eq!(board.line_owner(&diagonal), None);
    board.insert((X, X), Player::Oh).unwrap();
    board.insert((Y, Y), Player::Oh).unwrap();
    assert_eq!(board.line_owner(&diagonal), None);
    board.insert((Z, Z), Player::Oh).unwrap();
    assert_eq!(board.line_owner(&diagonal), Some(Player::Oh));
    board.insert((X, Y), Player::Oh).unwrap();
    board.insert((X, Z), Player::Ex).unwrap();
    assert_eq!(board.line_owner(&[(X, X), (X, Y), (X, Z)]), None);
}

#[test]
fn there_are_eight_lines_of_three_distinct_tiles() {
    assert_eq!(WINNING_LINES.len(), 8);
    for line in WINNING_LINES {
        assert_ne!(line[0], line[1]);
        assert_ne!(line[1], line[2]);
        assert_ne!(line[0], line[2]);
    }
    assert_eq!(WINNING_LINES[0], [(X, X), (X, Y), (X, Z)]);
    assert_eq!(WINNING_LINES[6], [(Z, X), (Y, Y), (X, Z)]);
    assert_eq!(WINNING_LINES[7], [(Z, X), (Z, Y), (Z, Z)]);
}

#[test]
fn toggle_gives_the_other_player() {
    assert_eq!(Player::Ex.toggle(), Player::Oh);
    assert_eq!(Player::Oh.toggle(), Player::Ex);
    assert_eq!(Player::Ex.toggle().toggle(), Player::Ex);
}

#[test]
fn first_player_follows_the_parity_of_the_draw() {
    assert_eq!(Player::from_draw(0), Player::Ex);
    assert_eq!(Player::from_draw(1), Player::Oh);
    assert_eq!(Player::from_draw(2), Player::Ex);
    assert_eq!(Player::from_draw(-1), Player::Oh);
    assert_eq!(Player::from_draw(-2), Player::Ex);
    assert_eq!(Player::from_draw(-3), Player::Oh);
    assert_eq!(Player::from_draw(i32::MAX), Player::Oh);
    assert_eq!(Player::from_draw(i32::MIN), Player::Ex);
}

#[test]
fn errors_say_what_went_wrong() {
    assert_eq!(
        TicTacToeError::FullBoardError(Board::new()).to_string(),
        "The board is full"
    );
    assert_eq!(
        TicTacToeError::ExisitingTileError((X, Y)).to_string(),
        "There is an existing piece at (X, Y)"
    );
    assert_eq!(
        TicTacToeError::ExisitingTileError((Z, Z)).to_string(),
        "There is an existing piece at (Z, Z)"
    );
    assert_eq!(describe_tile((Y, X)), "(Y, X)");
    assert_eq!(format!("{:?}", (Y, X)), describe_tile((Y, X)));
}

#[test]
fn clones_are_equal_and_independent() {
    let mut board = Board::new();
    board.insert((X, X), Player::Ex).unwrap();
    let copy = board.clone();
    assert_eq!(copy, board);
    board.insert((Y, Y), Player::Oh).unwrap();
    assert_ne!(copy, board);
    assert_eq!(copy.get((Y, Y)), None);
    let error = TicTacToeError::FullBoardError(copy.clone());
    assert_eq!(error.clone(), error);
    let other = TicTacToeError::ExisitingTileError((Z, X));
    assert_eq!(other.clone(), other);
    assert_ne!(other, error);
}
