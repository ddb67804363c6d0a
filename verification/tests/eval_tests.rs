use tictactoe::board::Board;
use tictactoe::eval::{evaluate, Line, Outcome};

fn play(moves: &[(usize, usize)]) -> Board {
    let mut b = Board::new();
    for &(col, row) in moves {
        assert!(b.apply_move(col, row).is_ok());
    }
    b
}

#[test]
fn empty_board_is_undecided_with_no_line() {
    let b = Board::new();
    let (outcome, line) = evaluate(&b);
    assert_eq!(outcome, Outcome::Undecided);
    assert_eq!(line, None);
}

#[test]
fn o_fills_column_zero_and_wins() {
    // O(0,0), X(1,1), O(0,1), X(2,2), O(0,2): column 0 is all O.
    let b = play(&[(0, 0), (1, 1), (0, 1), (2, 2), (0, 2)]);
    let (outcome, line) = evaluate(&b);
    assert_eq!(outcome, Outcome::OWins);
    assert_eq!(line, Some(Line::Col0));
}

#[test]
fn x_fills_column_one_and_wins() {
    let b = play(&[(0, 0), (1, 0), (0, 1), (1, 1), (2, 2), (1, 2)]);
    let (outcome, line) = evaluate(&b);
    assert_eq!(outcome, Outcome::XWins);
    assert_eq!(line, Some(Line::Col1));
}

#[test]
fn full_board_without_line_is_draw() {
    // Fills the whole grid with no three-in-a-row anywhere.
    let b = play(&[
        (0, 0), // O
        (1, 0), // X
        (2, 0), // O
        (1, 1), // X
        (0, 1), // O
        (2, 1), // X
        (1, 2), // O
        (0, 2), // X
        (2, 2), // O
    ]);
    let (outcome, line) = evaluate(&b);
    assert_eq!(outcome, Outcome::Draw);
    assert_eq!(line, None);
}

#[test]
fn five_cells_without_line_is_undecided() {
    // Five marks, four empties, no completed line.
    let b = play(&[(0, 0), (1, 1), (0, 1), (2, 2), (1, 0)]);
    let (outcome, line) = evaluate(&b);
    assert_eq!(outcome, Outcome::Undecided);
    assert_eq!(line, None);
}

#[test]
fn evaluation_is_idempotent_on_unchanged_board() {
    let b = play(&[(0, 0), (1, 1), (0, 1), (2, 2), (0, 2)]);
    let first = evaluate(&b);
    let second = evaluate(&b);
    assert_eq!(first.0, second.0);
    assert_eq!(first.1, second.1);
}

#[test]
fn lines_for_both_players_give_a_draw_with_no_line() {
    // Play continues past O's win until X also holds a line: both counts
    // reach three, which the decision table classifies as a draw.
    let b = play(&[(0, 0), (1, 0), (0, 1), (1, 1), (0, 2), (1, 2)]);
    let (outcome, line) = evaluate(&b);
    assert_eq!(outcome, Outcome::Draw);
    assert_eq!(line, None);
}

#[test]
fn earliest_complete_line_in_scan_order_is_reported() {
    // O completes both row 0 and column 0; rows are scanned first.
    let b = play(&[
        (0, 0), // O
        (1, 1), // X
        (1, 0), // O
        (2, 1), // X
        (2, 0), // O: row 0 complete
        (1, 2), // X
        (0, 1), // O
        (2, 2), // X
        (0, 2), // O: column 0 complete too
    ]);
    let (outcome, line) = evaluate(&b);
    assert_eq!(outcome, Outcome::OWins);
    assert_eq!(line, Some(Line::Row0));
}

#[test]
fn win_keeps_its_line_while_board_fills_further() {
    // After O's win on column 0, one more X move leaves the outcome intact.
    let mut b = play(&[(0, 0), (1, 1), (0, 1), (2, 2), (0, 2)]);
    assert!(b.apply_move(2, 0).is_ok());
    let (outcome, line) = evaluate(&b);
    assert_eq!(outcome, Outcome::OWins);
    assert_eq!(line, Some(Line::Col0));
}
