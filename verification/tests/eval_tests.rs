use fishermann::board::{Color, Piece, Position, Role};
use fishermann::eval::{evaluate, get_value};

#[test]
fn get_value_reads_the_tables() {
    let white_pawn = Piece { color: Color::White, role: Role::Pawn };
    // A pawn one step from promotion, by the natural index.
    assert_eq!(get_value(48, &white_pawn), 5);
    assert_eq!(get_value(8, &white_pawn), 50);
    let knight = Piece { color: Color::White, role: Role::Knight };
    assert_eq!(get_value(0, &knight), -50);
    assert_eq!(get_value(27, &knight), 20);
}

#[test]
fn initial_position_is_balanced_up_to_tempo() {
    // The starting array is mirror symmetric, so the totals cancel and
    // only the tempo bonus of the side to move remains.
    let p = Position::initial();
    assert_eq!(evaluate(&p), 10);
    let mut q = Position::initial();
    q.set_turn(Color::Black);
    assert_eq!(evaluate(&q), -10);
}

#[test]
fn evaluation_is_idempotent_under_clone() {
    let p = Position::initial();
    assert_eq!(evaluate(&p), evaluate(&p.duplicate()));
    assert_eq!(evaluate(&p), evaluate(&p.clone()));
}

#[test]
fn lone_queen_scores_its_square() {
    // A white queen on d4 is worth 5 by the table; with white to move the
    // tempo bonus makes 15.
    let mut p = Position::empty();
    p.set_piece(27, Some(Piece { color: Color::White, role: Role::Queen }));
    assert_eq!(evaluate(&p), 15);
}

#[test]
fn black_pieces_read_the_mirrored_square() {
    // A black pawn on e7 mirrors onto e2's table row, worth 50, counted
    // for black; with white to move the tempo bonus leaves -40.
    let mut p = Position::empty();
    p.set_piece(52, Some(Piece { color: Color::Black, role: Role::Pawn }));
    assert_eq!(evaluate(&p), -40);
}

#[test]
fn idempotence_law_holds_on_the_start_position() {
    let p = Position::initial();
    let (a, b) = fishermann::eval::evaluate_copy_agrees(&p);
    assert_eq!(a, b);
    assert_eq!(a, 10);
}
