use checkers_core::board::{
    black_start_positions, squares, white_start_positions, Color, Square, BOARD_SIZE,
};
use checkers_core::moves::MoveType;
use checkers_core::piece::{
    find_index_at_position, find_index_by_id, find_piece_at_position, find_piece_by_id, Piece,
    PieceType,
};

fn man(color: Color, x: u8, y: u8, id: u8) -> Piece {
    Piece { color, piece_type: PieceType::Normal, x, y, id }
}

fn king(color: Color, x: u8, y: u8, id: u8) -> Piece {
    Piece { color, piece_type: PieceType::King, x, y, id }
}

#[test]
fn board_has_64_squares_row_by_row() {
    let all = squares();
    assert_eq!(all.len(), 64);
    assert_eq!(all[0], Square { x: 0, y: 0 });
    assert_eq!(all[1], Square { x: 0, y: 1 });
    assert_eq!(all[8], Square { x: 1, y: 0 });
    assert_eq!(all[63], Square { x: 7, y: 7 });
    for (k, sq) in all.iter().enumerate() {
        assert_eq!(sq.x as usize, k / 8);
        assert_eq!(sq.y as usize, k % 8);
        assert!(sq.is_on_board());
    }
}

#[test]
fn squares_off_the_board_are_recognised() {
    assert!(Square { x: 7, y: 7 }.is_on_board());
    assert!(!Square { x: BOARD_SIZE, y: 0 }.is_on_board());
    assert!(!Square { x: 0, y: BOARD_SIZE }.is_on_board());
    assert!(!Square { x: 255, y: 255 }.is_on_board());
}

#[test]
fn square_colour_follows_the_coordinate_sum() {
    assert_eq!(Square { x: 0, y: 0 }.color(), Color::Black);
    assert_eq!(Square { x: 0, y: 1 }.color(), Color::White);
    assert_eq!(Square { x: 1, y: 0 }.color(), Color::White);
    assert_eq!(Square { x: 1, y: 1 }.color(), Color::Black);
    assert_eq!(Square { x: 7, y: 7 }.color(), Color::Black);
    assert_eq!(Square { x: 2, y: 1 }.color(), Color::White);
    // The sum is formed without wrapping round.
    assert_eq!(Square { x: 255, y: 255 }.color(), Color::Black);
    assert_eq!(Square { x: 255, y: 0 }.color(), Color::White);
}

#[test]
fn colours_are_each_other_s_opposite() {
    assert_eq!(Color::White.other(), Color::Black);
    assert_eq!(Color::Black.other(), Color::White);
}

#[test]
fn white_starts_on_the_dark_squares_of_rows_0_to_2() {
    assert_eq!(
        white_start_positions(),
        vec![
            (0, 0), (0, 2), (0, 4), (0, 6),
            (1, 1), (1, 3), (1, 5), (1, 7),
            (2, 0), (2, 2), (2, 4), (2, 6),
        ]
    );
}

#[test]
fn black_starts_on_the_dark_squares_of_rows_5_to_7() {
    assert_eq!(
        black_start_positions(),
        vec![
            (5, 1), (5, 3), (5, 5), (5, 7),
            (6, 0), (6, 2), (6, 4), (6, 6),
            (7, 1), (7, 3), (7, 5), (7, 7),
        ]
    );
}

#[test]
fn start_squares_are_dark_and_distinct() {
    let mut all = white_start_positions();
    all.extend(black_start_positions());
    assert_eq!(all.len(), 24);
    for (i, a) in all.iter().enumerate() {
        assert_eq!(Square { x: a.0, y: a.1 }.color(), Color::Black);
        for b in all.iter().skip(i + 1) {
            assert_ne!(a, b);
        }
    }
}

#[test]
fn move_to_square_changes_the_coordinates_only() {
    let mut p = man(Color::White, 6, 2, 3);
    p.move_to_square(Square { x: 7, y: 3 });
    assert_eq!(p, man(Color::White, 7, 3, 3));
}

#[test]
fn crowning_happens_on_the_far_row_only() {
    let mut w = man(Color::White, 7, 3, 0);
    w.crown_if_due();
    assert_eq!(w.piece_type, PieceType::King);
    let mut w = man(Color::White, 0, 2, 0);
    w.crown_if_due();
    assert_eq!(w.piece_type, PieceType::Normal);
    let mut b = man(Color::Black, 0, 2, 12);
    b.crown_if_due();
    assert_eq!(b.piece_type, PieceType::King);
    let mut b = man(Color::Black, 7, 1, 12);
    b.crown_if_due();
    assert_eq!(b.piece_type, PieceType::Normal);
    let mut k = king(Color::White, 3, 3, 1);
    k.crown_if_due();
    assert_eq!(k.piece_type, PieceType::King);
}

#[test]
fn lookup_by_position_finds_the_piece_on_the_square() {
    let pieces = vec![man(Color::White, 2, 2, 0), man(Color::Black, 3, 3, 12)];
    assert_eq!(find_piece_at_position((3, 3), &pieces), Some(pieces[1]));
    assert_eq!(find_index_at_position((3, 3), &pieces), Some(1));
    assert_eq!(find_piece_at_position((2, 2), &pieces), Some(pieces[0]));
    assert_eq!(find_piece_at_position((3, 2), &pieces), None);
    assert_eq!(find_index_at_position((2, 3), &pieces), None);
    assert_eq!(find_piece_at_position((0, 0), &Vec::new()), None);
}

#[test]
fn lookup_by_position_prefers_the_first_of_two() {
    let pieces = vec![man(Color::White, 2, 2, 0), man(Color::Black, 2, 2, 12)];
    assert_eq!(find_piece_at_position((2, 2), &pieces), Some(pieces[0]));
    assert_eq!(find_index_at_position((2, 2), &pieces), Some(0));
}

#[test]
fn lookup_by_identity_finds_the_piece() {
    let pieces = vec![man(Color::White, 2, 2, 4), man(Color::Black, 3, 3, 17)];
    assert_eq!(find_piece_by_id(17, &pieces), Some(pieces[1]));
    assert_eq!(find_index_by_id(4, &pieces), Some(0));
    assert_eq!(find_piece_by_id(5, &pieces), None);
    assert_eq!(find_index_by_id(0, &pieces), None);
}

#[test]
fn staying_in_place_is_a_pass() {
    let p = man(Color::White, 2, 2, 0);
    let pieces = vec![p];
    assert_eq!(p.is_move_valid(Square { x: 2, y: 2 }, &pieces), MoveType::Pass);
}

#[test]
fn one_step_forward_to_an_empty_square_is_regular() {
    let w = man(Color::White, 2, 2, 0);
    let b = man(Color::Black, 5, 5, 12);
    let pieces = vec![w, b];
    assert_eq!(w.is_move_valid(Square { x: 3, y: 3 }, &pieces), MoveType::Regular);
    assert_eq!(w.is_move_valid(Square { x: 3, y: 1 }, &pieces), MoveType::Regular);
    assert_eq!(b.is_move_valid(Square { x: 4, y: 4 }, &pieces), MoveType::Regular);
    assert_eq!(b.is_move_valid(Square { x: 4, y: 6 }, &pieces), MoveType::Regular);
}

#[test]
fn a_normal_piece_may_not_go_backwards() {
    let w = man(Color::White, 2, 2, 0);
    let b = man(Color::Black, 5, 5, 12);
    let pieces = vec![w, b];
    assert_eq!(w.is_move_valid(Square { x: 1, y: 1 }, &pieces), MoveType::Invalid);
    assert_eq!(w.is_move_valid(Square { x: 1, y: 3 }, &pieces), MoveType::Invalid);
    assert_eq!(b.is_move_valid(Square { x: 6, y: 6 }, &pieces), MoveType::Invalid);
    assert_eq!(b.is_move_valid(Square { x: 6, y: 4 }, &pieces), MoveType::Invalid);
}

#[test]
fn a_king_may_go_either_way() {
    let k = king(Color::White, 3, 3, 0);
    let pieces = vec![k, man(Color::Black, 2, 2, 12), man(Color::Black, 4, 4, 13)];
    assert_eq!(k.is_move_valid(Square { x: 4, y: 2 }, &pieces), MoveType::Regular);
    assert_eq!(k.is_move_valid(Square { x: 2, y: 4 }, &pieces), MoveType::Regular);
    assert_eq!(k.is_move_valid(Square { x: 1, y: 1 }, &pieces), MoveType::Take);
    assert_eq!(k.is_move_valid(Square { x: 5, y: 5 }, &pieces), MoveType::Take);
    let bk = king(Color::Black, 3, 3, 12);
    let pieces = vec![bk, man(Color::White, 4, 4, 0)];
    assert_eq!(bk.is_move_valid(Square { x: 5, y: 5 }, &pieces), MoveType::Take);
    assert_eq!(bk.is_move_valid(Square { x: 4, y: 2 }, &pieces), MoveType::Regular);
}

#[test]
fn an_occupied_destination_is_invalid() {
    let w = man(Color::White, 2, 2, 0);
    let pieces = vec![w, man(Color::White, 3, 3, 1), man(Color::Black, 3, 1, 12)];
    assert_eq!(w.is_move_valid(Square { x: 3, y: 3 }, &pieces), MoveType::Invalid);
    assert_eq!(w.is_move_valid(Square { x: 3, y: 1 }, &pieces), MoveType::Invalid);
}

#[test]
fn other_geometry_is_invalid() {
    let k = king(Color::White, 3, 3, 0);
    let pieces = vec![k];
    // Along a row or a column.
    assert_eq!(k.is_move_valid(Square { x: 3, y: 4 }, &pieces), MoveType::Invalid);
    assert_eq!(k.is_move_valid(Square { x: 4, y: 3 }, &pieces), MoveType::Invalid);
    assert_eq!(k.is_move_valid(Square { x: 3, y: 5 }, &pieces), MoveType::Invalid);
    // A knight's leap.
    assert_eq!(k.is_move_valid(Square { x: 5, y: 4 }, &pieces), MoveType::Invalid);
    // Two steps with nothing to jump over.
    assert_eq!(k.is_move_valid(Square { x: 5, y: 5 }, &pieces), MoveType::Invalid);
    // Three steps, with and without pieces on the way.
    assert_eq!(k.is_move_valid(Square { x: 6, y: 6 }, &pieces), MoveType::Invalid);
    let pieces = vec![k, man(Color::Black, 4, 4, 12)];
    assert_eq!(k.is_move_valid(Square { x: 6, y: 6 }, &pieces), MoveType::Invalid);
    let pieces = vec![k, man(Color::Black, 4, 4, 12), man(Color::Black, 5, 5, 13)];
    assert_eq!(k.is_move_valid(Square { x: 6, y: 6 }, &pieces), MoveType::Invalid);
}

#[test]
fn a_jump_over_an_opponent_is_a_take() {
    let w = man(Color::White, 2, 1, 0);
    let pieces = vec![w, man(Color::Black, 3, 2, 12)];
    assert_eq!(w.is_move_valid(Square { x: 4, y: 3 }, &pieces), MoveType::Take);
    let b = man(Color::Black, 5, 4, 12);
    let pieces = vec![b, man(Color::White, 4, 3, 0)];
    assert_eq!(b.is_move_valid(Square { x: 3, y: 2 }, &pieces), MoveType::Take);
}

#[test]
fn a_jump_over_an_own_piece_is_invalid() {
    let w = man(Color::White, 2, 1, 0);
    let pieces = vec![w, man(Color::White, 3, 2, 1)];
    assert_eq!(w.is_move_valid(Square { x: 4, y: 3 }, &pieces), MoveType::Invalid);
}

#[test]
fn a_backward_jump_is_invalid_for_a_normal_piece() {
    let w = man(Color::White, 4, 3, 0);
    let pieces = vec![w, man(Color::Black, 3, 2, 12)];
    assert_eq!(w.is_move_valid(Square { x: 2, y: 1 }, &pieces), MoveType::Invalid);
    let b = man(Color::Black, 3, 2, 12);
    let pieces = vec![b, man(Color::White, 4, 3, 0)];
    assert_eq!(b.is_move_valid(Square { x: 5, y: 4 }, &pieces), MoveType::Invalid);
}

#[test]
fn a_jump_onto_an_occupied_square_is_invalid() {
    let w = man(Color::White, 2, 1, 0);
    let pieces = vec![w, man(Color::Black, 3, 2, 12), man(Color::Black, 4, 3, 13)];
    assert_eq!(w.is_move_valid(Square { x: 4, y: 3 }, &pieces), MoveType::Invalid);
}

#[test]
fn path_collisions_lists_the_pieces_between_nearest_first() {
    let k = king(Color::White, 0, 0, 0);
    let a = man(Color::Black, 2, 2, 12);
    let b = man(Color::White, 5, 5, 1);
    let off = man(Color::Black, 3, 4, 13);
    let pieces = vec![k, b, off, a];
    assert_eq!(k.path_collisions((0, 0), (7, 7), &pieces), vec![a, b]);
    assert_eq!(k.path_collisions((7, 7), (0, 0), &pieces), vec![b, a]);
    // The ends themselves do not count.
    assert_eq!(k.path_collisions((2, 2), (5, 5), &pieces), Vec::new());
    assert_eq!(k.path_collisions((1, 1), (3, 3), &pieces), vec![a]);
    // The other diagonal.
    let c = man(Color::Black, 4, 3, 14);
    let pieces = vec![c, a];
    assert_eq!(k.path_collisions((6, 1), (1, 6), &pieces), vec![c]);
    assert_eq!(k.path_collisions((1, 6), (6, 1), &pieces), vec![c]);
}

#[test]
fn path_collisions_is_empty_off_the_diagonals() {
    let k = king(Color::White, 0, 0, 0);
    let pieces = vec![k, man(Color::Black, 0, 1, 12), man(Color::Black, 1, 1, 13)];
    assert_eq!(k.path_collisions((0, 0), (0, 2), &pieces), Vec::new());
    assert_eq!(k.path_collisions((0, 0), (2, 3), &pieces), Vec::new());
    assert_eq!(k.path_collisions((0, 0), (0, 0), &pieces), Vec::new());
    assert_eq!(k.path_collisions((0, 0), (1, 1), &pieces), Vec::new());
}

#[test]
fn reachable_lists_steps_and_takes_in_board_order() {
    let k = king(Color::White, 3, 3, 0);
    let pieces = vec![k, man(Color::Black, 2, 2, 12), man(Color::White, 4, 4, 1)];
    // (1,1) is a take; (2,4) and (4,2) are steps; (4,4) is occupied and
    // (5,5) lies behind a piece of the same side.
    assert_eq!(k.reachable(&squares(), &pieces), vec![(1, 1), (2, 4), (4, 2)]);
    assert!(k.can_take(&squares(), &pieces));
    let lone = vec![k];
    assert_eq!(k.reachable(&squares(), &lone), vec![(2, 2), (2, 4), (4, 2), (4, 4)]);
    assert!(!k.can_take(&squares(), &lone));
    assert_eq!(k.reachable(&Vec::new(), &lone), Vec::new());
}

#[test]
fn move_kinds_that_move_a_piece() {
    assert!(MoveType::Regular.moves_piece());
    assert!(MoveType::Take.moves_piece());
    assert!(!MoveType::Pass.moves_piece());
    assert!(!MoveType::Invalid.moves_piece());
}

#[test]
fn heading_follows_colour_and_rank() {
    let w = man(Color::White, 3, 3, 0);
    assert!(w.may_head_to(4));
    assert!(!w.may_head_to(2));
    assert!(!w.may_head_to(3));
    let b = man(Color::Black, 3, 3, 12);
    assert!(b.may_head_to(2));
    assert!(!b.may_head_to(4));
    let k = king(Color::Black, 3, 3, 13);
    assert!(k.may_head_to(4));
    assert!(k.may_head_to(2));
}

#[test]
fn a_destination_off_the_board_gets_no_classification() {
    let w = man(Color::White, 6, 7, 0);
    let pieces = vec![w];
    assert_eq!(w.classify_move(Square { x: 7, y: 8 }, &pieces), None);
    assert_eq!(w.classify_move(Square { x: 8, y: 7 }, &pieces), None);
    assert_eq!(w.classify_move(Square { x: 7, y: 6 }, &pieces), Some(MoveType::Regular));
    // A jump that would land beyond the last row.
    let w = man(Color::White, 6, 6, 0);
    let pieces = vec![w, man(Color::Black, 7, 7, 12)];
    assert_eq!(w.classify_move(Square { x: 8, y: 8 }, &pieces), None);
    assert_eq!(w.classify_move(Square { x: 255, y: 255 }, &pieces), None);
    assert_eq!(w.classify_move(Square { x: 7, y: 7 }, &pieces), Some(MoveType::Invalid));
    assert_eq!(w.classify_move(Square { x: 6, y: 6 }, &pieces), Some(MoveType::Pass));
}

#[test]
fn a_piece_on_the_edge_reaches_no_square_beyond_it() {
    let w = man(Color::White, 6, 7, 0);
    let b = man(Color::Black, 7, 6, 12);
    let pieces = vec![w, b];
    assert_eq!(w.reachable(&squares(), &pieces), Vec::new());
    assert!(!w.can_take(&squares(), &pieces));
    let k = king(Color::White, 7, 7, 1);
    let pieces = vec![k, man(Color::Black, 6, 6, 12)];
    assert_eq!(k.reachable(&squares(), &pieces), vec![(5, 5)]);
    assert!(k.can_take(&squares(), &pieces));
    for (x, y) in k.reachable(&squares(), &pieces) {
        assert!(Square { x, y }.is_on_board());
    }
}
