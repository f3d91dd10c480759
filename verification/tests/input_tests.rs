use sshnake::game::{Difficulty, GameState, SnakeGame};
use sshnake::grid::{Direction, Position};
use sshnake::input::{handle_key_input, key_action, menu_difficulty, Action, Key};

#[test]
fn ctrl_c_quits_everywhere() {
    for state in [GameState::StartScreen, GameState::Playing, GameState::Paused, GameState::GameOver] {
        assert_eq!(key_action(state, Key::Char('c'), true), Action::Quit);
        let mut game = SnakeGame::new(0);
        game.state = state;
        assert!(handle_key_input(&mut game, Key::Char('c'), true));
        assert_eq!(game.state, state);
    }
    assert_eq!(key_action(GameState::Playing, Key::Char('c'), false), Action::Nothing);
}

#[test]
fn start_screen_keys() {
    let s = GameState::StartScreen;
    assert_eq!(key_action(s, Key::Char('q'), false), Action::Quit);
    assert_eq!(key_action(s, Key::Esc, false), Action::Quit);
    for k in [Key::Up, Key::Char('k'), Key::Char('w')] {
        assert_eq!(key_action(s, k, false), Action::MenuUp);
    }
    for k in [Key::Down, Key::Char('j'), Key::Char('s')] {
        assert_eq!(key_action(s, k, false), Action::MenuDown);
    }
    assert_eq!(key_action(s, Key::Enter, false), Action::StartSelected);
    assert_eq!(key_action(s, Key::Char(' '), false), Action::StartSelected);
    assert_eq!(key_action(s, Key::Left, false), Action::Nothing);
    assert_eq!(key_action(s, Key::Other, false), Action::Nothing);
}

#[test]
fn playing_keys() {
    let s = GameState::Playing;
    assert_eq!(key_action(s, Key::Char('q'), false), Action::OpenMenu);
    assert_eq!(key_action(s, Key::Esc, false), Action::OpenMenu);
    assert_eq!(key_action(s, Key::Char(' '), false), Action::Pause);
    assert_eq!(key_action(s, Key::Char('p'), false), Action::Pause);
    assert_eq!(key_action(s, Key::Char('w'), false), Action::Steer(Direction::Up));
    assert_eq!(key_action(s, Key::Char('j'), false), Action::Steer(Direction::Down));
    assert_eq!(key_action(s, Key::Char('h'), false), Action::Steer(Direction::Left));
    assert_eq!(key_action(s, Key::Char('d'), false), Action::Steer(Direction::Right));
    assert_eq!(key_action(s, Key::Right, false), Action::Steer(Direction::Right));
    assert_eq!(key_action(s, Key::Char('r'), false), Action::Restart);
    assert_eq!(key_action(s, Key::Enter, false), Action::Nothing);
}

#[test]
fn paused_and_game_over_keys() {
    let p = GameState::Paused;
    assert_eq!(key_action(p, Key::Char(' '), false), Action::Resume);
    assert_eq!(key_action(p, Key::Char('p'), false), Action::Resume);
    assert_eq!(key_action(p, Key::Char('r'), false), Action::RestartPlaying);
    assert_eq!(key_action(p, Key::Char('m'), false), Action::OpenMenu);
    assert_eq!(key_action(p, Key::Esc, false), Action::OpenMenu);
    assert_eq!(key_action(p, Key::Char('q'), false), Action::Quit);
    assert_eq!(key_action(p, Key::Up, false), Action::Nothing);
    let g = GameState::GameOver;
    assert_eq!(key_action(g, Key::Char('r'), false), Action::RestartPlaying);
    assert_eq!(key_action(g, Key::Char('m'), false), Action::OpenMenu);
    assert_eq!(key_action(g, Key::Esc, false), Action::OpenMenu);
    assert_eq!(key_action(g, Key::Char('q'), false), Action::Quit);
    assert_eq!(key_action(g, Key::Char(' '), false), Action::Nothing);
}

#[test]
fn menu_rows_map_to_difficulties() {
    assert_eq!(menu_difficulty(0), Difficulty::Easy);
    assert_eq!(menu_difficulty(1), Difficulty::Medium);
    assert_eq!(menu_difficulty(2), Difficulty::Hard);
    assert_eq!(menu_difficulty(3), Difficulty::Insane);
    assert_eq!(menu_difficulty(9), Difficulty::Insane);
}

#[test]
fn menu_highlight_wraps_around() {
    let mut game = SnakeGame::new(0);
    assert!(!handle_key_input(&mut game, Key::Up, false));
    assert_eq!(game.menu_selection, 0);
    assert!(!handle_key_input(&mut game, Key::Char('k'), false));
    assert_eq!(game.menu_selection, 3);
    assert!(!handle_key_input(&mut game, Key::Down, false));
    assert_eq!(game.menu_selection, 0);
    for _ in 0..4 {
        handle_key_input(&mut game, Key::Char('s'), false);
    }
    assert_eq!(game.menu_selection, 0);
}

#[test]
fn up_then_down_leaves_the_menu_as_it_was() {
    let mut game = SnakeGame::new(0);
    let before = game.menu_selection;
    handle_key_input(&mut game, Key::Up, false);
    handle_key_input(&mut game, Key::Down, false);
    assert_eq!(game.menu_selection, before);
    assert_eq!(game.state, GameState::StartScreen);
}

#[test]
fn enter_starts_the_selected_difficulty() {
    let mut game = SnakeGame::new(0);
    handle_key_input(&mut game, Key::Down, false);
    handle_key_input(&mut game, Key::Down, false);
    assert!(!handle_key_input(&mut game, Key::Enter, false));
    assert_eq!(game.state, GameState::Playing);
    assert_eq!(game.difficulty, Difficulty::Insane);
    assert_eq!(game.snake.len(), 3);
    assert_eq!(game.score, 0);
}

#[test]
fn pause_then_resume_keeps_the_game() {
    let mut game = SnakeGame::new(0);
    game.state = GameState::Playing;
    game.food = Position { x: 1, y: 1 };
    game.tick();
    let snake = game.snake.clone();
    handle_key_input(&mut game, Key::Char(' '), false);
    assert_eq!(game.state, GameState::Paused);
    handle_key_input(&mut game, Key::Char(' '), false);
    assert_eq!(game.state, GameState::Playing);
    assert_eq!(game.snake, snake);
    assert_eq!(game.tick_count, 1);
    assert_eq!(game.food, Position { x: 1, y: 1 });
}

#[test]
fn steering_cannot_reverse_the_snake() {
    let mut game = SnakeGame::new(0);
    game.state = GameState::Playing;
    handle_key_input(&mut game, Key::Left, false);
    assert_eq!(game.next_dir, Direction::Right);
    handle_key_input(&mut game, Key::Up, false);
    assert_eq!(game.next_dir, Direction::Up);
    // Still moving right: left is refused even after choosing up.
    handle_key_input(&mut game, Key::Char('a'), false);
    assert_eq!(game.next_dir, Direction::Up);
    handle_key_input(&mut game, Key::Down, false);
    assert_eq!(game.next_dir, Direction::Down);
}

#[test]
fn quitting_from_play_returns_to_the_menu() {
    let mut game = SnakeGame::new(0);
    game.state = GameState::Playing;
    assert!(!handle_key_input(&mut game, Key::Char('q'), false));
    assert_eq!(game.state, GameState::StartScreen);
    assert!(handle_key_input(&mut game, Key::Char('q'), false));
}

#[test]
fn restart_keys() {
    let mut game = SnakeGame::new(0);
    game.state = GameState::GameOver;
    game.score = 30;
    game.snake = vec![
        Position { x: 1, y: 1 },
        Position { x: 1, y: 2 },
        Position { x: 1, y: 3 },
        Position { x: 1, y: 4 },
        Position { x: 1, y: 5 },
        Position { x: 1, y: 6 },
    ];
    game.high_score = 30;
    assert!(!handle_key_input(&mut game, Key::Char('r'), false));
    assert_eq!(game.state, GameState::Playing);
    assert_eq!(game.score, 0);
    assert_eq!(game.high_score, 30);
    assert_eq!(game.snake.len(), 3);
    game.tick_count = 9;
    assert!(!handle_key_input(&mut game, Key::Char('r'), false));
    assert_eq!(game.state, GameState::Playing);
    assert_eq!(game.tick_count, 0);
    handle_key_input(&mut game, Key::Char('p'), false);
    handle_key_input(&mut game, Key::Char('r'), false);
    assert_eq!(game.state, GameState::Playing);
    handle_key_input(&mut game, Key::Esc, false);
    assert_eq!(game.state, GameState::StartScreen);
}

#[test]
fn no_key_changes_the_high_score_or_reverses_the_snake() {
    let keys = [
        Key::Up, Key::Down, Key::Left, Key::Right, Key::Enter, Key::Esc, Key::Char('q'),
        Key::Char('p'), Key::Char(' '), Key::Char('r'), Key::Char('m'), Key::Char('w'),
        Key::Char('a'), Key::Char('s'), Key::Char('d'), Key::Char('x'), Key::Other,
    ];
    for state in [GameState::StartScreen, GameState::Playing, GameState::Paused, GameState::GameOver] {
        for key in keys {
            for dir in [Direction::Up, Direction::Down, Direction::Left, Direction::Right] {
                let mut game = SnakeGame::new(90);
                game.state = state;
                game.current_dir = dir;
                game.next_dir = dir;
                let before_difficulty = game.difficulty;
                handle_key_input(&mut game, key, false);
                assert_eq!(game.high_score, 90);
                assert_ne!(game.next_dir, game.current_dir.opposite());
                if game.difficulty != before_difficulty {
                    assert_eq!(state, GameState::StartScreen);
                    assert!(key == Key::Enter || key == Key::Char(' '));
                }
                if state == GameState::StartScreen && game.state != GameState::StartScreen {
                    assert_eq!(game.state, GameState::Playing);
                }
            }
        }
    }
}
