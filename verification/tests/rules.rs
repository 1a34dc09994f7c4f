//! The rule-level behaviours of the engine: check symmetry, self-check
//! rejection with exact rollback, checkmate and stalemate scenarios,
//! castling execution, error reporting, and location parsing.

use chess_engine::board::Board;
use chess_engine::game::{get_location_by_side, Game, MoveError};
use chess_engine::move_generator::base::PieceMovementType;
use chess_engine::move_generator::king::KingMoveGen;
use chess_engine::location::{File, Location, Rank};
use chess_engine::pieces::{Piece, PieceType, Side};
use chess_engine::threat::ThreadBoard;
use chess_engine::user_actions::MoveAction;

fn put(game: &mut Game, loc: Location, piece_type: PieceType, side: Side) {
    game.board.set(loc, Some(Piece::new(piece_type, side)));
}

fn snapshot(game: &Game) -> Vec<Option<Piece>> {
    let mut cells = Vec::new();
    for fi in 0..8 {
        for ri in 0..8 {
            cells.push(game.board.get(Location::new(
                File::from_index(fi),
                Rank::from_index(ri),
            )));
        }
    }
    cells
}

#[test]
fn check_symmetry_rook_on_open_file() {
    let king_loc = Location::new(File::E, Rank::Four);
    let rook_loc = Location::new(File::E, Rank::Eight);

    let mut board = Board::new();
    board.set(king_loc, Some(Piece::new(PieceType::King, Side::White)));
    board.set(rook_loc, Some(Piece::new(PieceType::Rook, Side::Black)));
    assert!(KingMoveGen::is_checked(&king_loc, &board));

    for blocker_rank in [Rank::Five, Rank::Six, Rank::Seven] {
        let mut blocked = Board::new();
        blocked.set(king_loc, Some(Piece::new(PieceType::King, Side::White)));
        blocked.set(rook_loc, Some(Piece::new(PieceType::Rook, Side::Black)));
        blocked.set(
            Location::new(File::E, blocker_rank),
            Some(Piece::new(PieceType::Pawn, Side::White)),
        );
        assert!(
            !KingMoveGen::is_checked(&king_loc, &blocked),
            "an interposed piece must break the check"
        );
    }
}

#[test]
fn self_check_rejection_leaves_state_untouched() {
    let mut game = Game::new();
    let king_loc = Location::new(File::E, Rank::One);
    let rook_loc = Location::new(File::E, Rank::Two);
    put(&mut game, king_loc, PieceType::King, Side::White);
    put(&mut game, rook_loc, PieceType::Rook, Side::White);
    put(&mut game, Location::new(File::E, Rank::Eight), PieceType::Rook, Side::Black);
    game.king_pos[Side::White as usize] = king_loc;
    game.active = Side::White;

    let before = snapshot(&game);
    let king_pos_before = game.king_pos;

    let action = MoveAction {
        from: rook_loc,
        to: Location::new(File::F, Rank::Two),
    };
    let result = game.try_move(&action);

    assert_eq!(result, Err(MoveError::SelfCheckViolation));
    assert_eq!(snapshot(&game), before, "every square must be exactly as before");
    assert_eq!(game.king_pos, king_pos_before);
    assert_eq!(game.active, Side::White);
}

#[test]
fn rejected_moves_roll_back_has_moved_flags() {
    let mut game = Game::new();
    let king_loc = Location::new(File::E, Rank::One);
    let rook_loc = Location::new(File::E, Rank::Two);
    put(&mut game, king_loc, PieceType::King, Side::White);
    put(&mut game, rook_loc, PieceType::Rook, Side::White);
    put(&mut game, Location::new(File::E, Rank::Eight), PieceType::Rook, Side::Black);
    game.king_pos[Side::White as usize] = king_loc;
    game.active = Side::White;

    let action = MoveAction {
        from: rook_loc,
        to: Location::new(File::A, Rank::Two),
    };
    assert_eq!(game.try_move(&action), Err(MoveError::SelfCheckViolation));

    let rook = game.board.get(rook_loc).expect("the rook must be back on its square");
    assert!(!rook.has_moved, "a rolled-back move must not mark the piece as moved");
}

#[test]
fn committed_moves_mark_the_piece_as_moved() {
    let mut game = Game::new();
    let pawn_loc = Location::new(File::E, Rank::Two);
    put(&mut game, pawn_loc, PieceType::Pawn, Side::White);
    game.active = Side::White;

    let target = Location::new(File::E, Rank::Four);
    assert_eq!(game.try_move(&MoveAction { from: pawn_loc, to: target }), Ok(()));

    let pawn = game.board.get(target).expect("the pawn must stand on its target");
    assert!(pawn.has_moved, "a committed move must mark the piece as moved");
}

#[test]
fn back_rank_checkmate_is_reported() {
    let mut game = Game::new();
    let king_loc = Location::new(File::A, Rank::One);
    put(&mut game, king_loc, PieceType::King, Side::White);
    game.king_pos[Side::White as usize] = king_loc;
    put(&mut game, Location::new(File::H, Rank::One), PieceType::Rook, Side::Black);
    put(&mut game, Location::new(File::H, Rank::Two), PieceType::Rook, Side::Black);
    game.active = Side::White;

    assert!(game.is_checkmate(), "the back-rank-and-cutoff pattern is checkmate");
    assert!(!game.is_stalemate(), "a checkmated king is in check, not stalemated");

    game.board.set(Location::new(File::H, Rank::Two), None);
    assert!(!game.is_checkmate(), "without the cutoff rook the king escapes");
}

#[test]
fn stalemate_differs_from_checkmate() {
    let mut game = Game::new();
    let king_loc = Location::new(File::A, Rank::One);
    put(&mut game, king_loc, PieceType::King, Side::White);
    game.king_pos[Side::White as usize] = king_loc;
    put(&mut game, Location::new(File::B, Rank::Three), PieceType::Queen, Side::Black);
    game.active = Side::White;

    assert!(game.is_stalemate(), "a cornered but unattacked king is stalemated");
    assert!(!game.is_checkmate(), "stalemate is not checkmate");
}

#[test]
fn kingside_castle_executes_both_relocations() {
    let mut game = Game::new();
    let king_loc = Location::new(File::E, Rank::One);
    let rook_loc = Location::new(File::H, Rank::One);
    put(&mut game, king_loc, PieceType::King, Side::White);
    put(&mut game, rook_loc, PieceType::Rook, Side::White);
    game.king_pos[Side::White as usize] = king_loc;
    game.active = Side::White;

    let castle = MoveAction { from: king_loc, to: Location::new(File::G, Rank::One) };
    assert_eq!(game.try_move(&castle), Ok(()));

    let king = game.board.get(Location::new(File::G, Rank::One)).expect("king on g-file");
    let rook = game.board.get(Location::new(File::F, Rank::One)).expect("rook on f-file");
    assert_eq!(king.piece_type, PieceType::King);
    assert_eq!(rook.piece_type, PieceType::Rook);
    assert!(king.has_moved && rook.has_moved);
    assert!(game.board.get(king_loc).is_none());
    assert!(game.board.get(rook_loc).is_none());
    assert_eq!(game.king_pos[Side::White as usize], Location::new(File::G, Rank::One));
    assert_eq!(game.active, Side::Black);
}

#[test]
fn castle_is_not_offered_with_an_opposing_rook() {
    let mut board = Board::new();
    let king_loc = Location::new(File::E, Rank::One);
    board.set(king_loc, Some(Piece::new(PieceType::King, Side::White)));
    board.set(Location::new(File::H, Rank::One), Some(Piece::new(PieceType::Rook, Side::Black)));
    board.set(Location::new(File::A, Rank::One), Some(Piece::new(PieceType::Rook, Side::Black)));

    let moves = KingMoveGen::generate_moves(&board, king_loc, Side::White);
    assert!(
        !moves.iter().any(|m| matches!(m, PieceMovementType::Castle(_, _))),
        "an opposing corner rook offers no castle"
    );

    let mut game = Game::new();
    put(&mut game, king_loc, PieceType::King, Side::White);
    put(&mut game, Location::new(File::H, Rank::One), PieceType::Rook, Side::Black);
    game.king_pos[Side::White as usize] = king_loc;
    game.active = Side::White;
    let castle = MoveAction { from: king_loc, to: Location::new(File::G, Rank::One) };
    assert_eq!(game.try_move(&castle), Err(MoveError::IllegalDestination));
}

#[test]
fn castle_is_not_offered_through_a_piece() {
    let mut game = Game::new();
    let king_loc = Location::new(File::E, Rank::One);
    put(&mut game, king_loc, PieceType::King, Side::White);
    put(&mut game, Location::new(File::H, Rank::One), PieceType::Rook, Side::White);
    put(&mut game, Location::new(File::F, Rank::One), PieceType::Bishop, Side::White);
    game.king_pos[Side::White as usize] = king_loc;
    game.active = Side::White;

    let castle = MoveAction { from: king_loc, to: Location::new(File::G, Rank::One) };
    assert_eq!(game.try_move(&castle), Err(MoveError::IllegalDestination));
}

#[test]
fn every_error_kind_is_reported_exactly() {
    let mut game = Game::new();
    put(&mut game, Location::new(File::E, Rank::Two), PieceType::Pawn, Side::White);
    put(&mut game, Location::new(File::E, Rank::Seven), PieceType::Pawn, Side::Black);
    game.active = Side::White;

    let empty_from = MoveAction {
        from: Location::new(File::A, Rank::Five),
        to: Location::new(File::A, Rank::Six),
    };
    assert_eq!(game.try_move(&empty_from), Err(MoveError::NoPieceAtSource));

    let wrong_side = MoveAction {
        from: Location::new(File::E, Rank::Seven),
        to: Location::new(File::E, Rank::Six),
    };
    assert_eq!(game.try_move(&wrong_side), Err(MoveError::WrongSideToMove));

    let sideways_pawn = MoveAction {
        from: Location::new(File::E, Rank::Two),
        to: Location::new(File::D, Rank::Two),
    };
    assert_eq!(game.try_move(&sideways_pawn), Err(MoveError::IllegalDestination));
}

#[test]
fn location_text_parsing_accepts_squares_and_rejects_noise() {
    assert_eq!(
        Location::from("e4"),
        Ok(Location::new(File::E, Rank::Four))
    );
    assert_eq!(
        Location::from("E4"),
        Ok(Location::new(File::E, Rank::Four))
    );
    assert_eq!(
        Location::from("a1"),
        Ok(Location::new(File::A, Rank::One))
    );
    assert_eq!(
        Location::from("h8"),
        Ok(Location::new(File::H, Rank::Eight))
    );
    assert!(Location::from("e9").is_err());
    assert!(Location::from("i4").is_err());
    assert!(Location::from("e").is_err());
    assert!(Location::from("").is_err());
    assert!(Location::from("4e").is_err());
}

#[test]
fn offsets_stay_on_the_board_or_fail() {
    let corner = Location::new(File::A, Rank::One);
    assert_eq!(corner.offset(1, 1), Some(Location::new(File::B, Rank::Two)));
    assert_eq!(corner.offset(-1, 0), None);
    assert_eq!(corner.offset(0, -1), None);
    let top = Location::new(File::H, Rank::Eight);
    assert_eq!(top.offset(1, 0), None);
    assert_eq!(top.offset(0, 1), None);
    assert_eq!(top.offset(-1, -1), Some(Location::new(File::G, Rank::Seven)));
}

#[test]
fn reset_board_lays_out_the_opening_position() {
    let mut game = Game::new();
    game.reset_board();

    let white_king = game.board.get(Location::new(File::E, Rank::One)).unwrap();
    assert_eq!(white_king.piece_type, PieceType::King);
    assert_eq!(white_king.side, Side::White);
    assert!(!white_king.has_moved);

    let black_queen = game.board.get(Location::new(File::D, Rank::Eight)).unwrap();
    assert_eq!(black_queen.piece_type, PieceType::Queen);
    assert_eq!(black_queen.side, Side::Black);

    for fi in 0..8 {
        let white_pawn = game.board.get(Location::new(File::from_index(fi), Rank::Two)).unwrap();
        assert_eq!(white_pawn.piece_type, PieceType::Pawn);
        let black_pawn =
            game.board.get(Location::new(File::from_index(fi), Rank::Seven)).unwrap();
        assert_eq!(black_pawn.piece_type, PieceType::Pawn);
        for middle in [Rank::Three, Rank::Four, Rank::Five, Rank::Six] {
            assert!(game.board.get(Location::new(File::from_index(fi), middle)).is_none());
        }
    }
}

#[test]
fn side_placements_cover_sixteen_pieces() {
    let white = get_location_by_side(Side::White);
    assert_eq!(white.len(), 16);
    assert_eq!(white[0].0, Location::new(File::A, Rank::One));
    assert_eq!(white[0].1.piece_type, PieceType::Rook);
    assert_eq!(white[4].0, Location::new(File::E, Rank::One));
    assert_eq!(white[4].1.piece_type, PieceType::King);
    assert_eq!(white[8].1.piece_type, PieceType::Pawn);

    let black = get_location_by_side(Side::Black);
    assert_eq!(black.len(), 16);
    assert_eq!(black[4].0, Location::new(File::E, Rank::Eight));
    assert!(black.iter().all(|(_, p)| p.side == Side::Black && !p.has_moved));
}

#[test]
fn bitboard_round_trip_restores_placement() {
    let mut board = Board::new();
    board.set(Location::new(File::E, Rank::One), Some(Piece::new(PieceType::King, Side::White)));
    board.set(Location::new(File::D, Rank::Five), Some(Piece::new(PieceType::Queen, Side::Black)));
    board.set(Location::new(File::A, Rank::Two), Some(Piece::new(PieceType::Pawn, Side::White)));

    let packed = board.to_bitboards();
    let restored = Board::from_bitboards(packed);

    for fi in 0..8 {
        for ri in 0..8 {
            let loc = Location::new(File::from_index(fi), Rank::from_index(ri));
            assert_eq!(board.get(loc), restored.get(loc));
        }
    }
}

#[test]
fn promotion_is_reported_by_destination_listing() {
    let mut game = Game::new();
    let pawn_loc = Location::new(File::E, Rank::Seven);
    put(&mut game, pawn_loc, PieceType::Pawn, Side::White);
    game.active = Side::White;

    let dests = game.get_moves_by_type(PieceType::Pawn, pawn_loc, Side::White);
    assert_eq!(dests, vec![Location::new(File::E, Rank::Eight)]);

    let result = game.try_move(&MoveAction {
        from: pawn_loc,
        to: Location::new(File::E, Rank::Eight),
    });
    assert_eq!(result, Ok(()));
    assert!(game.board.get(Location::new(File::E, Rank::Eight)).is_some());
}

#[test]
fn threat_board_marks_and_resets() {
    let mut threats = ThreadBoard::new();
    let loc = Location::new(File::C, Rank::Three);
    assert!(!threats.get(loc));
    threats.set(loc, true);
    assert!(threats.get(loc));

    let rows = threats.iter();
    assert_eq!(rows.len(), 8);
    assert!(rows[5][2], "rank three prints on the sixth row from the top");

    threats.reset();
    assert!(!threats.get(loc));
}

#[test]
fn board_rows_print_top_rank_first() {
    let mut board = Board::new();
    board.set(Location::new(File::A, Rank::Eight), Some(Piece::new(PieceType::Rook, Side::Black)));
    board.set(Location::new(File::H, Rank::One), Some(Piece::new(PieceType::Rook, Side::White)));

    let rows = board.iter();
    assert_eq!(rows.len(), 8);
    assert_eq!(rows[0][0].unwrap().side, Side::Black);
    assert_eq!(rows[7][7].unwrap().side, Side::White);
    assert!(rows[0][7].is_none());
}

#[test]
fn opposite_swaps_the_sides() {
    assert_eq!(Side::White.opposite(), Side::Black);
    assert_eq!(Side::Black.opposite(), Side::White);
}
