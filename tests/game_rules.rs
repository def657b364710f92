use tic_tac_toe::game::{cell_at, Cell, Game, Mark, Outcome};
use tic_tac_toe::state::{Action, State};

/// The pixel at the middle of the cell at `row`, `col`.
fn centre(row: u32, col: u32) -> (u32, u32) {
    (col * 300 + 150, row * 300 + 150)
}

/// Plays one click per frame, in order, and returns what each frame reported.
fn play(game: &mut Game, cells: &[(u32, u32)]) -> Vec<Option<Outcome>> {
    cells
        .iter()
        .map(|&(row, col)| game.update(Some(centre(row, col)), false))
        .collect()
}

/// The moves that fill `line` with the first player's mark, the second
/// player answering in the first two cells off the line.
fn x_fills(line: [(u32, u32); 3]) -> Vec<(u32, u32)> {
    let mut others = Vec::new();
    for row in 0..3 {
        for col in 0..3 {
            if !line.contains(&(row, col)) {
                others.push((row, col));
            }
        }
    }
    vec![line[0], others[0], line[1], others[1], line[2]]
}

const ALL_LINES: [[(u32, u32); 3]; 8] = [
    [(0, 0), (0, 1), (0, 2)],
    [(1, 0), (1, 1), (1, 2)],
    [(2, 0), (2, 1), (2, 2)],
    [(0, 0), (1, 0), (2, 0)],
    [(0, 1), (1, 1), (2, 1)],
    [(0, 2), (1, 2), (2, 2)],
    [(0, 0), (1, 1), (2, 2)],
    [(2, 0), (1, 1), (0, 2)],
];

#[test]
fn new_game_is_empty_with_first_player_to_move() {
    let game = Game::new();
    for row in 0..3 {
        for col in 0..3 {
            assert_eq!(game.cell(row, col), Cell::Empty);
        }
    }
    assert_eq!(game.turn(), Mark::X);
    assert!(!game.is_game_over());
    assert!(game.is_active());
    assert!(game.draw().is_none());
}

#[test]
fn four_moves_scenario() {
    let mut game = Game::new();
    let reports = play(&mut game, &[(0, 0), (1, 1), (1, 0), (2, 0)]);
    assert_eq!(reports, vec![None, None, None, None]);
    assert_eq!(game.cell(2, 0), Cell::Taken(Mark::O));
    assert_eq!(game.cell(0, 0), Cell::Taken(Mark::X));
    assert_eq!(game.cell(1, 1), Cell::Taken(Mark::O));
    assert_eq!(game.cell(1, 0), Cell::Taken(Mark::X));
    assert!(!game.is_game_over());
    assert_eq!(game.turn(), Mark::X);
}

#[test]
fn every_line_wins_for_first_player() {
    for line in ALL_LINES {
        let mut game = Game::new();
        let reports = play(&mut game, &x_fills(line));
        assert_eq!(reports[..4], [None, None, None, None]);
        assert_eq!(reports[4], Some(Outcome::Win(Mark::X)));
        assert!(game.is_game_over());
    }
}

#[test]
fn second_player_wins_bottom_row() {
    let mut game = Game::new();
    let reports = play(&mut game, &[(0, 0), (2, 0), (0, 1), (2, 1), (1, 2), (2, 2)]);
    assert_eq!(reports[5], Some(Outcome::Win(Mark::O)));
    assert!(game.is_game_over());
}

#[test]
fn full_grid_without_line_is_draw() {
    let mut game = Game::new();
    let moves = [(0, 0), (0, 1), (0, 2), (1, 1), (1, 0), (1, 2), (2, 1), (2, 0), (2, 2)];
    let reports = play(&mut game, &moves);
    assert_eq!(reports[..8], [None; 8]);
    assert_eq!(reports[8], Some(Outcome::Draw));
    assert!(game.is_game_over());
}

#[test]
fn click_on_occupied_cell_changes_nothing() {
    let mut game = Game::new();
    play(&mut game, &[(1, 1)]);
    assert_eq!(game.turn(), Mark::O);
    let report = game.update(Some(centre(1, 1)), false);
    assert_eq!(report, None);
    assert_eq!(game.cell(1, 1), Cell::Taken(Mark::X));
    assert_eq!(game.turn(), Mark::O);
    for row in 0..3 {
        for col in 0..3 {
            if (row, col) != (1, 1) {
                assert_eq!(game.cell(row, col), Cell::Empty);
            }
        }
    }
}

#[test]
fn turn_alternates_after_each_placement() {
    let mut game = Game::new();
    let mut expected = Mark::X;
    for (row, col) in [(0, 0), (0, 1), (1, 1), (0, 2)] {
        assert_eq!(game.turn(), expected);
        game.update(Some(centre(row, col)), false);
        assert_eq!(game.cell(row as usize, col as usize), Cell::Taken(expected));
        expected = expected.next();
    }
    assert_eq!(game.turn(), Mark::X);
}

#[test]
fn frame_without_click_changes_nothing() {
    let mut game = Game::new();
    play(&mut game, &[(0, 0)]);
    assert_eq!(game.update(None, true), None);
    assert_eq!(game.turn(), Mark::O);
    assert!(game.is_active());
    assert!(!game.is_game_over());
}

#[test]
fn finished_game_ignores_pointer_until_restart() {
    let mut game = Game::new();
    play(&mut game, &x_fills(ALL_LINES[0]));
    assert!(game.is_game_over());
    assert_eq!(game.update(Some(centre(2, 2)), false), None);
    assert_eq!(game.cell(2, 2), Cell::Empty);
    assert_eq!(game.turn(), Mark::O);
    assert!(game.is_active());
    assert!(game.draw().is_none());
    assert_eq!(game.update(Some(centre(2, 1)), true), None);
    assert_eq!(game.cell(2, 1), Cell::Empty);
    assert!(!game.is_active());
    assert!(game.is_game_over());
    match game.draw() {
        Some(Action::Change(State::Game(fresh))) => {
            assert_eq!(fresh.turn(), Mark::X);
            assert!(!fresh.is_game_over());
            assert!(fresh.is_active());
            assert_eq!(fresh.cell(0, 0), Cell::Empty);
        },
        other => panic!("expected a change to a new game, got {:?}", other),
    }
}

#[test]
fn pixels_map_to_cells() {
    assert_eq!(cell_at(0, 0), Some((0, 0)));
    assert_eq!(cell_at(299, 300), Some((1, 0)));
    assert_eq!(cell_at(600, 150), Some((0, 2)));
    assert_eq!(cell_at(899, 899), Some((2, 2)));
    assert_eq!(cell_at(900, 0), None);
    assert_eq!(cell_at(0, 900), None);
}

#[test]
fn click_at_cell_edge_takes_that_cell() {
    let mut game = Game::new();
    game.update(Some((300, 599)), false);
    assert_eq!(game.cell(1, 1), Cell::Taken(Mark::X));
}

#[test]
fn glyphs_of_marks_and_cells() {
    assert_eq!(Mark::X.to_char(), 'X');
    assert_eq!(Mark::O.to_char(), 'O');
    assert_eq!(Cell::Empty.to_char(), ' ');
    assert_eq!(Cell::Taken(Mark::O).to_char(), 'O');
    assert_eq!(Mark::X.next(), Mark::O);
    assert_eq!(Mark::O.next(), Mark::X);
}
