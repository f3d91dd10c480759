use vstd::prelude::*;

use crate::game::{Difficulty, GameState, GameView, SnakeGame};
use crate::grid::{opposite, Direction};

verus! {

/// A key as the game sees it.
#[derive(Clone, Copy, PartialEq, Eq, Debug, Structural)]
pub enum Key {
    Up,
    Down,
    Left,
    Right,
    Enter,
    Esc,
    Char(char),
    /// Any key the game does not react to.
    Other,
}

/// What a key press asks the game to do.
#[derive(Clone, Copy, PartialEq, Eq, Debug, Structural)]
pub enum Action {
    /// Leave the program.
    Quit,
    /// Ignore the key.
    Nothing,
    /// Move the menu highlight one row up, wrapping around.
    MenuUp,
    /// Move the menu highlight one row down, wrapping around.
    MenuDown,
    /// Start a fresh game at the highlighted difficulty.
    StartSelected,
    /// Go back to the start screen.
    OpenMenu,
    Pause,
    Resume,
    /// Turn the snake for its next move, unless that would reverse it.
    Steer(Direction),
    /// Start afresh without changing the screen.
    Restart,
    /// Start afresh and play.
    RestartPlaying,
}

/// Arrow up, or `k` / `w`.
pub open spec fn is_up_key(k: Key) -> bool {
    k == Key::Up || k == Key::Char('k') || k == Key::Char('w')
}

/// Arrow down, or `j` / `s`.
pub open spec fn is_down_key(k: Key) -> bool {
    k == Key::Down || k == Key::Char('j') || k == Key::Char('s')
}

/// Arrow left, or `h` / `a`.
pub open spec fn is_left_key(k: Key) -> bool {
    k == Key::Left || k == Key::Char('h') || k == Key::Char('a')
}

/// Arrow right, or `l` / `d`.
pub open spec fn is_right_key(k: Key) -> bool {
    k == Key::Right || k == Key::Char('l') || k == Key::Char('d')
}

/// The action a key press asks for on a given screen; `ctrl` tells whether the
/// Control modifier was held.
pub open spec fn key_action_spec(state: GameState, key: Key, ctrl: bool) -> Action {
    if ctrl && key == Key::Char('c') {
        Action::Quit
    } else {
        match state {
            GameState::StartScreen => {
                if key == Key::Char('q') || key == Key::Esc {
                    Action::Quit
                } else if is_up_key(key) {
                    Action::MenuUp
                } else if is_down_key(key) {
                    Action::MenuDown
                } else if key == Key::Enter || key == Key::Char(' ') {
                    Action::StartSelected
                } else {
                    Action::Nothing
                }
            },
            GameState::Playing => {
                if key == Key::Char('q') || key == Key::Esc {
                    Action::OpenMenu
                } else if key == Key::Char(' ') || key == Key::Char('p') {
                    Action::Pause
                } else if is_up_key(key) {
                    Action::Steer(Direction::Up)
                } else if is_down_key(key) {
                    Action::Steer(Direction::Down)
                } else if is_left_key(key) {
                    Action::Steer(Direction::Left)
                } else if is_right_key(key) {
                    Action::Steer(Direction::Right)
                } else if key == Key::Char('r') {
                    Action::Restart
                } else {
                    Action::Nothing
                }
            },
            GameState::Paused => {
                if key == Key::Char(' ') || key == Key::Char('p') {
                    Action::Resume
                } else if key == Key::Char('r') {
                    Action::RestartPlaying
                } else if key == Key::Char('m') || key == Key::Esc {
                    Action::OpenMenu
                } else if key == Key::Char('q') {
                    Action::Quit
                } else {
                    Action::Nothing
                }
            },
            GameState::GameOver => {
                if key == Key::Char('r') {
                    Action::RestartPlaying
                } else if key == Key::Char('m') || key == Key::Esc {
                    Action::OpenMenu
                } else if key == Key::Char('q') {
                    Action::Quit
                } else {
                    Action::Nothing
                }
            },
        }
    }
}

/// The difficulty on a row of the start menu.
pub open spec fn menu_difficulty_spec(selection: usize) -> Difficulty {
    if selection == 0 {
        Difficulty::Easy
    } else if selection == 1 {
        Difficulty::Medium
    } else if selection == 2 {
        Difficulty::Hard
    } else {
        Difficulty::Insane
    }
}

/// `new` is what carrying out `a` makes of `old`.
pub open spec fn applies(old: GameView, a: Action, new: GameView) -> bool {
    match a {
        Action::Quit => new == old,
        Action::Nothing => new == old,
        Action::MenuUp => new == GameView {
            menu_selection: ((old.menu_selection + 3) % 4) as usize,
            ..old
        },
        Action::MenuDown => new == GameView {
            menu_selection: ((old.menu_selection + 1) % 4) as usize,
            ..old
        },
        Action::StartSelected => new.is_reset_of(
            GameView {
                difficulty: menu_difficulty_spec(old.menu_selection),
                state: GameState::Playing,
                ..old
            },
        ),
        Action::OpenMenu => new == GameView { state: GameState::StartScreen, ..old },
        Action::Pause => new == GameView { state: GameState::Paused, ..old },
        Action::Resume => new == GameView { state: GameState::Playing, ..old },
        Action::Steer(d) => new == GameView {
            next_dir: if old.current_dir != opposite(d) {
                d
            } else {
                old.next_dir
            },
            ..old
        },
        Action::Restart => new.is_reset_of(old),
        Action::RestartPlaying => new.is_reset_of(GameView { state: GameState::Playing, ..old }),
    }
}

/// The difficulty on a row of the start menu: rows 0, 1, 2 are Easy, Medium and
/// Hard, any other row Insane.
pub fn menu_difficulty(selection: usize) -> (d: Difficulty)
    ensures
        d == menu_difficulty_spec(selection),
{
    match selection {
        0 => Difficulty::Easy,
        1 => Difficulty::Medium,
        2 => Difficulty::Hard,
        _ => Difficulty::Insane,
    }
}

/// The action a key press asks for on the given screen.
pub fn key_action(state: GameState, key: Key, ctrl: bool) -> (a: Action)
    ensures
        a == key_action_spec(state, key, ctrl),
{
    if ctrl && key == Key::Char('c') {
        return Action::Quit;
    }
    match state {
        GameState::StartScreen => match key {
            Key::Char('q') | Key::Esc => Action::Quit,
            Key::Up | Key::Char('k') | Key::Char('w') => Action::MenuUp,
            Key::Down | Key::Char('j') | Key::Char('s') => Action::MenuDown,
            Key::Enter | Key::Char(' ') => Action::StartSelected,
            _ => Action::Nothing,
        },
        GameState::Playing => match key {
            Key::Char('q') | Key::Esc => Action::OpenMenu,
            Key::Char(' ') | Key::Char('p') => Action::Pause,
            Key::Up | Key::Char('k') | Key::Char('w') => Action::Steer(Direction::Up),
            Key::Down | Key::Char('j') | Key::Char('s') => Action::Steer(Direction::Down),
            Key::Left | Key::Char('h') | Key::Char('a') => Action::Steer(Direction::Left),
            Key::Right | Key::Char('l') | Key::Char('d') => Action::Steer(Direction::Right),
            Key::Char('r') => Action::Restart,
            _ => Action::Nothing,
        },
        GameState::Paused => match key {
            Key::Char(' ') | Key::Char('p') => Action::Resume,
            Key::Char('r') => Action::RestartPlaying,
            Key::Char('m') | Key::Esc => Action::OpenMenu,
            Key::Char('q') => Action::Quit,
            _ => Action::Nothing,
        },
        GameState::GameOver => match key {
            Key::Char('r') => Action::RestartPlaying,
            Key::Char('m') | Key::Esc => Action::OpenMenu,
            Key::Char('q') => Action::Quit,
            _ => Action::Nothing,
        },
    }
}

/// Reacts to one key press; returns whether the program should quit. The menu
/// highlight must leave room to be moved without overflowing.
pub fn handle_key_input(game: &mut SnakeGame, key: Key, ctrl: bool) -> (quit: bool)
    requires
        key_action_spec(old(game).state, key, ctrl) == Action::MenuUp ==> old(game).menu_selection
            + 3 <= usize::MAX,
        key_action_spec(old(game).state, key, ctrl) == Action::MenuDown
            ==> old(game).menu_selection + 1 <= usize::MAX,
    ensures
        old(game).wf() ==> final(game).wf(),
        quit == (key_action_spec(old(game).state, key, ctrl) == Action::Quit),
        applies(old(game)@, key_action_spec(old(game).state, key, ctrl), final(game)@),
        old(game).next_dir != opposite(old(game).current_dir) ==> final(game).next_dir
            != opposite(final(game).current_dir),
        final(game).high_score == old(game).high_score,
        final(game).difficulty != old(game).difficulty ==> old(game).state == GameState::StartScreen
            && (key == Key::Enter || key == Key::Char(' ')),
        old(game).state == GameState::StartScreen && final(game).state != GameState::StartScreen
            ==> final(game).state == GameState::Playing,
{
    let action = key_action(game.state, key, ctrl);
    match action {
        Action::Quit => {
            return true;
        },
        Action::Nothing => {},
        Action::MenuUp => {
            game.menu_selection = (game.menu_selection + 3) % 4;
        },
        Action::MenuDown => {
            game.menu_selection = (game.menu_selection + 1) % 4;
        },
        Action::StartSelected => {
            game.difficulty = menu_difficulty(game.menu_selection);
            game.reset();
            game.state = GameState::Playing;
        },
        Action::OpenMenu => {
            game.state = GameState::StartScreen;
        },
        Action::Pause => {
            game.state = GameState::Paused;
        },
        Action::Resume => {
            game.state = GameState::Playing;
        },
        Action::Steer(d) => {
            if game.current_dir != d.opposite() {
                game.next_dir = d;
            }
        },
        Action::Restart => {
            game.reset();
        },
        Action::RestartPlaying => {
            game.reset();
            game.state = GameState::Playing;
        },
    }
    false
}

/// While playing, the arrow keys and the letters `k`, `j`, `h`, `l` and `w`, `s`,
/// `a`, `d` steer up, down, left and right; `q` and Esc open the menu, the space
/// bar and `p` pause, and `r` restarts, with or without Control held.
pub proof fn lemma_playing_keys(ctrl: bool)
    ensures
        key_action_spec(GameState::Playing, Key::Up, ctrl) == Action::Steer(Direction::Up),
        key_action_spec(GameState::Playing, Key::Char('k'), ctrl) == Action::Steer(Direction::Up),
        key_action_spec(GameState::Playing, Key::Char('w'), ctrl) == Action::Steer(Direction::Up),
        key_action_spec(GameState::Playing, Key::Down, ctrl) == Action::Steer(Direction::Down),
        key_action_spec(GameState::Playing, Key::Char('j'), ctrl) == Action::Steer(
            Direction::Down,
        ),
        key_action_spec(GameState::Playing, Key::Char('s'), ctrl) == Action::Steer(
            Direction::Down,
        ),
        key_action_spec(GameState::Playing, Key::Left, ctrl) == Action::Steer(Direction::Left),
        key_action_spec(GameState::Playing, Key::Char('h'), ctrl) == Action::Steer(
            Direction::Left,
        ),
        key_action_spec(GameState::Playing, Key::Char('a'), ctrl) == Action::Steer(
            Direction::Left,
        ),
        key_action_spec(GameState::Playing, Key::Right, ctrl) == Action::Steer(Direction::Right),
        key_action_spec(GameState::Playing, Key::Char('l'), ctrl) == Action::Steer(
            Direction::Right,
        ),
        key_action_spec(GameState::Playing, Key::Char('d'), ctrl) == Action::Steer(
            Direction::Right,
        ),
        key_action_spec(GameState::Playing, Key::Char('q'), ctrl) == Action::OpenMenu,
        key_action_spec(GameState::Playing, Key::Esc, ctrl) == Action::OpenMenu,
        key_action_spec(GameState::Playing, Key::Char(' '), ctrl) == Action::Pause,
        key_action_spec(GameState::Playing, Key::Char('p'), ctrl) == Action::Pause,
        key_action_spec(GameState::Playing, Key::Char('r'), ctrl) == Action::Restart,
        key_action_spec(GameState::Playing, Key::Enter, ctrl) == Action::Nothing,
        key_action_spec(GameState::Playing, Key::Other, ctrl) == Action::Nothing,
{
}

/// On the start screen, `q` and Esc quit, the up keys (arrow, `k`, `w`) and the
/// down keys (arrow, `j`, `s`) move the menu highlight, and Enter or the space
/// bar start the highlighted difficulty, with or without Control held.
pub proof fn lemma_start_screen_keys(ctrl: bool)
    ensures
        key_action_spec(GameState::StartScreen, Key::Char('q'), ctrl) == Action::Quit,
        key_action_spec(GameState::StartScreen, Key::Esc, ctrl) == Action::Quit,
        key_action_spec(GameState::StartScreen, Key::Up, ctrl) == Action::MenuUp,
        key_action_spec(GameState::StartScreen, Key::Char('k'), ctrl) == Action::MenuUp,
        key_action_spec(GameState::StartScreen, Key::Char('w'), ctrl) == Action::MenuUp,
        key_action_spec(GameState::StartScreen, Key::Down, ctrl) == Action::MenuDown,
        key_action_spec(GameState::StartScreen, Key::Char('j'), ctrl) == Action::MenuDown,
        key_action_spec(GameState::StartScreen, Key::Char('s'), ctrl) == Action::MenuDown,
        key_action_spec(GameState::StartScreen, Key::Enter, ctrl) == Action::StartSelected,
        key_action_spec(GameState::StartScreen, Key::Char(' '), ctrl) == Action::StartSelected,
        key_action_spec(GameState::StartScreen, Key::Left, ctrl) == Action::Nothing,
        key_action_spec(GameState::StartScreen, Key::Char('r'), ctrl) == Action::Nothing,
        key_action_spec(GameState::StartScreen, Key::Other, ctrl) == Action::Nothing,
{
}

/// On the pause screen the space bar and `p` resume, `r` restarts and plays, `m`
/// and Esc open the menu and `q` quits; after a crash `r` restarts and plays, `m`
/// and Esc open the menu and `q` quits; with or without Control held.
pub proof fn lemma_paused_and_game_over_keys(ctrl: bool)
    ensures
        key_action_spec(GameState::Paused, Key::Char(' '), ctrl) == Action::Resume,
        key_action_spec(GameState::Paused, Key::Char('p'), ctrl) == Action::Resume,
        key_action_spec(GameState::Paused, Key::Char('r'), ctrl) == Action::RestartPlaying,
        key_action_spec(GameState::Paused, Key::Char('m'), ctrl) == Action::OpenMenu,
        key_action_spec(GameState::Paused, Key::Esc, ctrl) == Action::OpenMenu,
        key_action_spec(GameState::Paused, Key::Char('q'), ctrl) == Action::Quit,
        key_action_spec(GameState::Paused, Key::Up, ctrl) == Action::Nothing,
        key_action_spec(GameState::Paused, Key::Enter, ctrl) == Action::Nothing,
        key_action_spec(GameState::GameOver, Key::Char('r'), ctrl) == Action::RestartPlaying,
        key_action_spec(GameState::GameOver, Key::Char('m'), ctrl) == Action::OpenMenu,
        key_action_spec(GameState::GameOver, Key::Esc, ctrl) == Action::OpenMenu,
        key_action_spec(GameState::GameOver, Key::Char('q'), ctrl) == Action::Quit,
        key_action_spec(GameState::GameOver, Key::Char(' '), ctrl) == Action::Nothing,
        key_action_spec(GameState::GameOver, Key::Up, ctrl) == Action::Nothing,
{
}

/// Steering sets the next direction unless it points straight back along the
/// last move (up after down, down after up, left after right, right after
/// left), in which case nothing changes; nothing else about the game changes.
pub proof fn lemma_steer(g: GameView, d: Direction, new: GameView)
    requires
        applies(g, Action::Steer(d), new),
    ensures
        (d == Direction::Up && g.current_dir == Direction::Down) || (d == Direction::Down
            && g.current_dir == Direction::Up) || (d == Direction::Left && g.current_dir
            == Direction::Right) || (d == Direction::Right && g.current_dir == Direction::Left)
            ==> new == g,
        !((d == Direction::Up && g.current_dir == Direction::Down) || (d == Direction::Down
            && g.current_dir == Direction::Up) || (d == Direction::Left && g.current_dir
            == Direction::Right) || (d == Direction::Right && g.current_dir == Direction::Left))
            ==> new == (GameView { next_dir: d, ..g }),
{
    assert(new =~= (GameView { next_dir: new.next_dir, ..g }));
}

/// The menu rows, top to bottom, are Easy, Medium, Hard and Insane; pressing up
/// on the top row wraps to the bottom one and down on the bottom row to the top.
pub proof fn lemma_menu_rows(g: GameView, new: GameView)
    requires
        g.menu_selection < 4,
    ensures
        menu_difficulty_spec(0) == Difficulty::Easy,
        menu_difficulty_spec(1) == Difficulty::Medium,
        menu_difficulty_spec(2) == Difficulty::Hard,
        menu_difficulty_spec(3) == Difficulty::Insane,
        applies(g, Action::MenuUp, new) ==> new.menu_selection == if g.menu_selection == 0 {
            3
        } else {
            g.menu_selection - 1
        },
        applies(g, Action::MenuDown, new) ==> new.menu_selection == if g.menu_selection == 3 {
            0
        } else {
            g.menu_selection + 1
        },
        applies(g, Action::MenuUp, new) || applies(g, Action::MenuDown, new) ==> new == (
        GameView { menu_selection: new.menu_selection, ..g }),
{
}

/// Opening the menu, pausing and resuming only change the screen: to the start
/// screen, the pause screen and the game; quitting and an ignored key change
/// nothing; a restart starts afresh on the same screen, and a restart from the
/// pause or game-over screen starts afresh and plays.
pub proof fn lemma_screen_actions(g: GameView, new: GameView)
    ensures
        applies(g, Action::OpenMenu, new) ==> new.state == GameState::StartScreen && new == (
        GameView { state: new.state, ..g }),
        applies(g, Action::Pause, new) ==> new.state == GameState::Paused && new == (GameView {
            state: new.state,
            ..g
        }),
        applies(g, Action::Resume, new) ==> new.state == GameState::Playing && new == (GameView {
            state: new.state,
            ..g
        }),
        applies(g, Action::Quit, new) ==> new == g,
        applies(g, Action::Nothing, new) ==> new == g,
        applies(g, Action::Restart, new) ==> new.state == g.state && new.score == 0
            && new.snake.len() == 3,
        applies(g, Action::RestartPlaying, new) ==> new.state == GameState::Playing && new.score
            == 0 && new.snake.len() == 3,
        applies(g, Action::StartSelected, new) ==> new.state == GameState::Playing && new.score
            == 0 && new.snake.len() == 3 && new.difficulty == menu_difficulty_spec(
            g.menu_selection,
        ),
{
}

/// Control-C quits from every screen.
pub proof fn lemma_ctrl_c_quits(state: GameState)
    ensures
        key_action_spec(state, Key::Char('c'), true) == Action::Quit,
{
}

/// On the start screen, moving the highlight up and then down leaves the game as it was.
pub proof fn lemma_menu_up_then_down(g: GameView, mid: GameView, new: GameView)
    requires
        g.wf(),
        g.state == GameState::StartScreen,
        applies(g, key_action_spec(g.state, Key::Up, false), mid),
        applies(mid, key_action_spec(mid.state, Key::Down, false), new),
    ensures
        new == g,
{
}

/// On the start screen, moving the highlight down and then up leaves the game as it was.
pub proof fn lemma_menu_down_then_up(g: GameView, mid: GameView, new: GameView)
    requires
        g.wf(),
        g.state == GameState::StartScreen,
        applies(g, key_action_spec(g.state, Key::Down, false), mid),
        applies(mid, key_action_spec(mid.state, Key::Up, false), new),
    ensures
        new == g,
{
}

/// Four presses of the same arrow bring the menu highlight back to where it was.
pub proof fn lemma_menu_cycles(g: GameView, a: GameView, b: GameView, c: GameView, d: GameView)
    requires
        g.wf(),
        g.state == GameState::StartScreen,
        applies(g, Action::MenuDown, a),
        applies(a, Action::MenuDown, b),
        applies(b, Action::MenuDown, c),
        applies(c, Action::MenuDown, d),
    ensures
        d == g,
{
}

/// Pausing a running game with the space bar and pressing it again resumes the
/// very same game.
pub proof fn lemma_pause_then_resume(g: GameView, mid: GameView, new: GameView)
    requires
        g.state == GameState::Playing,
        applies(g, key_action_spec(g.state, Key::Char(' '), false), mid),
        applies(mid, key_action_spec(mid.state, Key::Char(' '), false), new),
    ensures
        mid.state == GameState::Paused,
        new == g,
{
}

/// No key press changes the high score.
pub proof fn lemma_keys_keep_high_score(g: GameView, key: Key, ctrl: bool, new: GameView)
    requires
        applies(g, key_action_spec(g.state, key, ctrl), new),
    ensures
        new.high_score == g.high_score,
{
}

} // verus!
