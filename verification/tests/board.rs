use chinchon::game::{App, Position, CELL_EMPTY, CELL_O, CELL_X};

fn app_with(board: [u8; 9]) -> App {
    let mut app = App::new();
    app.board = board;
    app
}

const E: u8 = CELL_EMPTY;
const X: u8 = CELL_X;
const O: u8 = CELL_O;

#[test]
fn get_reads_row_by_row() {
    let app = app_with([0, 1, 2, 2, 1, 0, 1, 1, 2]);
    assert_eq!(app.get(0, 0), 0);
    assert_eq!(app.get(2, 0), 2);
    assert_eq!(app.get(0, 1), 2);
    assert_eq!(app.get(1, 2), 1);
    assert_eq!(app.get(2, 2), 2);
}

#[test]
fn set_then_get() {
    let mut app = App::new();
    app.set(2, 1, X);
    assert_eq!(app.get(2, 1), X);
    assert_eq!(app.board, [E, E, E, E, E, X, E, E, E]);
    app.set(0, 2, O);
    assert_eq!(app.get(0, 2), O);
    assert_eq!(app.get(2, 1), X);
}

#[test]
fn check_line_counts_values_and_empties() {
    let app = app_with([X, E, O, X, O, E, E, E, X]);
    let col0 = [Position(0, 0), Position(0, 1), Position(0, 2)];
    assert_eq!(app.check_line(X, col0), (2, 1, Position(0, 2)));
    let row0 = [Position(0, 0), Position(1, 0), Position(2, 0)];
    assert_eq!(app.check_line(X, row0), (1, 1, Position(1, 0)));
    assert_eq!(app.check_line(O, row0), (1, 1, Position(1, 0)));
    let diag = [Position(0, 0), Position(1, 1), Position(2, 2)];
    assert_eq!(app.check_line(X, diag), (2, 0, Position(0, 0)));
}

#[test]
fn check_line_reports_the_last_empty_cell() {
    let app = App::new();
    let row1 = [Position(0, 1), Position(1, 1), Position(2, 1)];
    assert_eq!(app.check_line(X, row1), (0, 3, Position(2, 1)));
    assert_eq!(app.check_line(E, row1), (3, 0, Position(0, 0)));
}

#[test]
fn find_two_in_line_in_a_column() {
    let app = app_with([X, E, E, X, O, E, E, E, O]);
    assert_eq!(app.find_two_in_line(X), Some(Position(0, 2)));
}

#[test]
fn find_two_in_line_in_a_row() {
    let app = app_with([O, E, O, X, X, E, E, E, E]);
    assert_eq!(app.find_two_in_line(O), Some(Position(1, 0)));
    assert_eq!(app.find_two_in_line(X), Some(Position(2, 1)));
}

#[test]
fn find_two_in_line_on_the_diagonals() {
    let app = app_with([O, E, E, E, O, E, E, E, E]);
    assert_eq!(app.find_two_in_line(O), Some(Position(2, 2)));
    let app = app_with([E, E, X, E, X, E, E, E, E]);
    assert_eq!(app.find_two_in_line(X), Some(Position(0, 2)));
}

#[test]
fn find_two_in_line_columns_come_first() {
    let app = app_with([X, X, E, X, E, E, E, E, E]);
    assert_eq!(app.find_two_in_line(X), Some(Position(0, 2)));
}

#[test]
fn find_two_in_line_none() {
    let app = app_with([X, O, X, X, O, O, O, X, X]);
    assert_eq!(app.find_two_in_line(X), None);
    assert_eq!(app.find_two_in_line(O), None);
    assert_eq!(App::new().find_two_in_line(X), None);
}

#[test]
fn find_fork_names_an_empty_corner() {
    // One X in the cells (0,1) and (1,0): the corner (0,0) closes both lines.
    let app = app_with([E, X, E, X, E, E, E, E, E]);
    assert_eq!(app.find_fork(), Some(Position(0, 0)));
    // One X in the cells (2,1) and (1,2): the corner (2,2) closes both lines.
    let app = app_with([E, E, E, E, E, X, E, X, E]);
    assert_eq!(app.find_fork(), Some(Position(2, 2)));
}

#[test]
fn find_fork_none() {
    assert_eq!(App::new().find_fork(), None);
    let app = app_with([X, E, E, E, O, E, E, E, E]);
    assert_eq!(app.find_fork(), None);
}

#[test]
fn is_user_win_on_each_kind_of_line() {
    assert!(app_with([E, X, E, E, X, E, E, X, E]).is_user_win());
    assert!(app_with([E, E, E, X, X, X, E, E, E]).is_user_win());
    assert!(app_with([X, E, E, E, X, E, E, E, X]).is_user_win());
    assert!(app_with([E, E, X, E, X, E, X, E, E]).is_user_win());
}

#[test]
fn is_user_win_false() {
    assert!(!App::new().is_user_win());
    assert!(!app_with([O, O, O, X, X, E, E, E, E]).is_user_win());
    assert!(!app_with([X, O, X, X, O, O, O, X, X]).is_user_win());
}

#[test]
fn is_empty_cells_looks_at_the_top_left_cells() {
    assert!(App::new().is_empty_cells());
    assert!(app_with([X, O, E, X, E, O, O, O, O]).is_empty_cells());
    // Only the cells at columns 0 and 1 of rows 0 and 1 are looked at.
    assert!(!app_with([X, O, E, O, X, E, E, E, E]).is_empty_cells());
}
