use tic_tac_toe::app::App;
use tic_tac_toe::game::{Cell, Game, Mark, Outcome};
use tic_tac_toe::state::{Action, State};

fn top_game(app: &App) -> &Game {
    match app.top() {
        Some(State::Game(game)) => game,
        None => panic!("the stack is empty"),
    }
}

#[test]
fn new_app_is_empty() {
    let app = App::new();
    assert_eq!(app.len(), 0);
    assert_eq!(app.pending(), 0);
    assert!(app.top().is_none());
    assert!(!app.can_update());
}

#[test]
fn actions_wait_for_the_next_update() {
    let mut app = App::new();
    app.add_action(Action::Create(State::Game(Game::new())));
    assert_eq!(app.len(), 0);
    assert_eq!(app.pending(), 1);
    assert!(app.can_update());
    assert_eq!(app.update(Some((150, 150)), false), None);
    assert_eq!(app.len(), 1);
    assert_eq!(app.pending(), 0);
    assert_eq!(top_game(&app).cell(0, 0), Cell::Taken(Mark::X));
}

#[test]
fn actions_apply_in_order() {
    let mut app = App::new();
    app.add_action(Action::Create(State::Game(Game::new())));
    app.add_action(Action::Create(State::Game(Game::new())));
    app.add_action(Action::Destroy);
    assert!(app.can_update());
    app.update(None, false);
    assert_eq!(app.len(), 1);
    app.add_action(Action::Destroy);
    assert!(!app.can_update());
    app.add_action(Action::Change(State::Game(Game::new())));
    assert!(app.can_update());
    app.update(None, false);
    assert_eq!(app.len(), 1);
}

#[test]
fn destroy_on_empty_stack_does_nothing() {
    let mut app = App::new();
    app.add_action(Action::Destroy);
    app.add_action(Action::Create(State::Game(Game::new())));
    assert!(app.can_update());
    app.update(None, false);
    assert_eq!(app.len(), 1);
}

#[test]
fn change_replaces_the_top() {
    let mut app = App::new();
    app.add_action(Action::Create(State::Game(Game::new())));
    app.update(Some((150, 150)), false);
    app.add_action(Action::Change(State::Game(Game::new())));
    app.update(None, false);
    assert_eq!(app.len(), 1);
    assert_eq!(top_game(&app).cell(0, 0), Cell::Empty);
}

#[test]
fn restart_after_game_over_brings_a_fresh_game() {
    let mut app = App::new();
    app.add_action(Action::Create(State::Game(Game::new())));
    // First player fills the left column.
    let clicks = [(150, 150), (450, 150), (150, 450), (450, 450), (150, 750)];
    let mut reports = Vec::new();
    for click in clicks {
        reports.push(app.update(Some(click), false));
        app.draw();
    }
    assert_eq!(reports[4], Some(Outcome::Win(Mark::X)));
    assert!(top_game(&app).is_game_over());
    // Clicks after the end are ignored.
    assert_eq!(app.update(Some((750, 750)), false), None);
    app.draw();
    assert_eq!(top_game(&app).cell(2, 2), Cell::Empty);
    assert_eq!(app.pending(), 0);
    // The restart key gives the game up; drawing queues a new one.
    app.update(None, true);
    app.draw();
    assert_eq!(app.pending(), 1);
    assert!(!top_game(&app).is_active());
    app.update(None, false);
    assert_eq!(app.len(), 1);
    let game = top_game(&app);
    assert_eq!(game.turn(), Mark::X);
    assert!(!game.is_game_over());
    assert!(game.is_active());
    for row in 0..3 {
        for col in 0..3 {
            assert_eq!(game.cell(row, col), Cell::Empty);
        }
    }
}
