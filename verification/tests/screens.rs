use akari::app::{game_command, Action, App, Command, CurrentScreen, Key};
use akari::archive::PUZZLE_COUNT;
use akari::layout::{cell_area, Area};
use akari::puzzle::{LoadError, Puzzle, PuzzleMetadata, PuzzleSize};
use akari::types::{Direction, GameState, LightState, PlayerObject, PlayerOperation};

fn puzzle(rows: &[&[&str]]) -> Puzzle {
    let cols = if rows.is_empty() { 0 } else { rows[0].len() };
    Puzzle {
        id: 1,
        metadata: PuzzleMetadata {
            puzzle_type: String::from("akari"),
            author: String::from("author"),
            solver: String::from("solver"),
            source: String::from("source"),
            info: String::from("info"),
            size: PuzzleSize { cols, rows: rows.len(), unit: 1 },
        },
        problem: rows
            .iter()
            .map(|row| row.iter().map(|token| token.to_string()).collect())
            .collect(),
    }
}

fn press(app: &mut App, key: Key) -> Action {
    app.handle_event_drawn(key, None, None, true, 1)
}

fn app_at(screen: CurrentScreen) -> App {
    let mut app = App::new();
    let letter = match screen {
        CurrentScreen::Menu => return app,
        CurrentScreen::Archive => 'a',
        CurrentScreen::Settings => 's',
        CurrentScreen::Help => 'h',
        CurrentScreen::Exiting => 'e',
        CurrentScreen::Game | CurrentScreen::Win => panic!("reached through a game"),
    };
    assert_eq!(press(&mut app, Key::Char(letter)), Action::Nothing);
    assert_eq!(app.current_screen(), screen);
    app
}

fn app_in_game(rows: &[&[&str]]) -> App {
    let mut app = App::new();
    assert_eq!(app.start_game(puzzle(rows)), Ok(()));
    assert_eq!(app.current_screen(), CurrentScreen::Game);
    app
}

#[test]
fn the_program_starts_on_the_menu() {
    let app = App::new();
    assert_eq!(app.current_screen(), CurrentScreen::Menu);
    assert!(app.game().is_none());
    assert!(!app.should_quit());
    assert_eq!(app.effect_pending(), None);
}

#[test]
fn letters_of_the_menu_lead_to_their_screens() {
    for (letter, screen) in [
        ('a', CurrentScreen::Archive),
        ('s', CurrentScreen::Settings),
        ('h', CurrentScreen::Help),
        ('e', CurrentScreen::Exiting),
    ] {
        let mut app = App::new();
        assert_eq!(press(&mut app, Key::Char(letter)), Action::Nothing);
        assert_eq!(app.current_screen(), screen);
        assert!(!app.should_quit());
    }
    let mut app = App::new();
    assert_eq!(press(&mut app, Key::Char('z')), Action::Nothing);
    assert_eq!(press(&mut app, Key::Left), Action::Nothing);
    assert_eq!(press(&mut app, Key::Other), Action::Nothing);
    assert_eq!(app.current_screen(), CurrentScreen::Menu);
}

#[test]
fn q_on_the_menu_ends_the_program() {
    let mut app = App::new();
    assert_eq!(press(&mut app, Key::Char('q')), Action::Nothing);
    assert!(app.should_quit());
    assert_eq!(app.current_screen(), CurrentScreen::Menu);
}

#[test]
fn arrows_on_the_menu_move_its_selection() {
    let mut app = App::new();
    assert_eq!(press(&mut app, Key::Up), Action::SelectMenu(Some(usize::MAX)));
    assert_eq!(press(&mut app, Key::Down), Action::SelectMenu(Some(0)));
    for (selected, before, after) in [
        (0, 0, 1),
        (1, 0, 2),
        (3, 2, 4),
        (4, 3, 5),
        (usize::MAX - 1, usize::MAX - 2, usize::MAX),
        (usize::MAX, usize::MAX - 1, usize::MAX),
    ] {
        assert_eq!(
            app.handle_event_drawn(Key::Up, Some(selected), Some(7), true, 1),
            Action::SelectMenu(Some(before))
        );
        assert_eq!(
            app.handle_event_drawn(Key::Down, Some(selected), Some(7), true, 1),
            Action::SelectMenu(Some(after))
        );
    }
    assert_eq!(app.current_screen(), CurrentScreen::Menu);
}

#[test]
fn enter_on_the_menu_chooses_the_selected_entry() {
    let mut app = App::new();
    assert_eq!(app.handle_event_drawn(Key::Enter, None, Some(3), true, 9), Action::Nothing);
    assert_eq!(app.current_screen(), CurrentScreen::Menu);
    for (index, screen) in [
        (1, CurrentScreen::Archive),
        (2, CurrentScreen::Settings),
        (3, CurrentScreen::Help),
        (4, CurrentScreen::Exiting),
        (5, CurrentScreen::Menu),
        (usize::MAX, CurrentScreen::Menu),
    ] {
        let mut app = App::new();
        assert_eq!(
            app.handle_event_drawn(Key::Enter, Some(index), Some(0), true, 9),
            Action::Nothing
        );
        assert_eq!(app.current_screen(), screen);
    }
    let mut app = App::new();
    assert_eq!(
        app.handle_event_drawn(Key::Enter, Some(0), Some(5), true, 314),
        Action::StartGame(314)
    );
    assert_eq!(
        app.handle_event_drawn(Key::Char('g'), Some(2), Some(5), true, 271),
        Action::StartGame(271)
    );
    assert_eq!(app.current_screen(), CurrentScreen::Menu);
}

#[test]
fn a_game_on_any_puzzle_draws_an_id_of_the_archive() {
    let mut app = App::new();
    let mut seen = Vec::new();
    for _ in 0..400 {
        match app.handle_event(Key::Char('g'), None, None, true) {
            Action::StartGame(id) => {
                assert!(1 <= id && id <= PUZZLE_COUNT);
                seen.push(id);
            }
            other => panic!("no game asked for: {:?}", other),
        }
        match app.handle_event(Key::Enter, Some(0), None, true) {
            Action::StartGame(id) => {
                assert!(1 <= id && id <= 750);
                seen.push(id);
            }
            other => panic!("no game asked for: {:?}", other),
        }
    }
    assert!(seen.iter().any(|id| *id != seen[0]));
    assert_eq!(app.current_screen(), CurrentScreen::Menu);
}

#[test]
fn keys_that_need_no_draw_do_the_same_with_and_without_one() {
    let mut app = App::new();
    assert_eq!(
        app.handle_event(Key::Up, Some(2), None, true),
        Action::SelectMenu(Some(1))
    );
    assert_eq!(app.handle_event(Key::Enter, Some(1), None, true), Action::Nothing);
    assert_eq!(app.current_screen(), CurrentScreen::Archive);
    assert_eq!(
        app.handle_event(Key::Enter, Some(0), Some(41), true),
        Action::StartGame(42)
    );
    assert_eq!(app.handle_event(Key::Char('q'), None, None, true), Action::Nothing);
    assert_eq!(app.current_screen(), CurrentScreen::Menu);
}

#[test]
fn the_archive_starts_the_selected_puzzle() {
    let mut app = app_at(CurrentScreen::Archive);
    assert_eq!(press(&mut app, Key::Up), Action::SelectArchive(Some(usize::MAX)));
    assert_eq!(press(&mut app, Key::Down), Action::SelectArchive(Some(0)));
    assert_eq!(
        app.handle_event_drawn(Key::Up, Some(3), Some(749), true, 1),
        Action::SelectArchive(Some(748))
    );
    assert_eq!(
        app.handle_event_drawn(Key::Down, Some(3), Some(748), true, 1),
        Action::SelectArchive(Some(749))
    );
    assert_eq!(
        app.handle_event_drawn(Key::Up, Some(3), Some(0), true, 1),
        Action::SelectArchive(Some(0))
    );
    assert_eq!(press(&mut app, Key::Enter), Action::Nothing);
    assert_eq!(
        app.handle_event_drawn(Key::Enter, Some(9), Some(0), true, 5),
        Action::StartGame(1)
    );
    assert_eq!(
        app.handle_event_drawn(Key::Enter, None, Some(749), true, 5),
        Action::StartGame(750)
    );
    assert_eq!(
        app.handle_event_drawn(Key::Enter, None, Some(4_294_967_294), true, 5),
        Action::StartGame(4_294_967_295)
    );
    assert_eq!(
        app.handle_event_drawn(Key::Enter, None, Some(4_294_967_295), true, 5),
        Action::Nothing
    );
    assert_eq!(
        app.handle_event_drawn(Key::Enter, None, Some(usize::MAX), true, 5),
        Action::Nothing
    );
    assert_eq!(press(&mut app, Key::Char('g')), Action::Nothing);
    assert_eq!(app.current_screen(), CurrentScreen::Archive);
    assert_eq!(press(&mut app, Key::Char('q')), Action::Nothing);
    assert_eq!(app.current_screen(), CurrentScreen::Menu);
}

#[test]
fn settings_and_help_are_left_by_q() {
    for screen in [CurrentScreen::Settings, CurrentScreen::Help] {
        let mut app = app_at(screen);
        assert_eq!(press(&mut app, Key::Enter), Action::Nothing);
        assert_eq!(press(&mut app, Key::Up), Action::Nothing);
        assert_eq!(press(&mut app, Key::Char('a')), Action::Nothing);
        assert_eq!(app.current_screen(), screen);
        assert_eq!(press(&mut app, Key::Char('q')), Action::Nothing);
        assert_eq!(app.current_screen(), CurrentScreen::Menu);
        assert!(!app.should_quit());
    }
}

#[test]
fn the_exit_screen_asks_for_enter() {
    let mut app = app_at(CurrentScreen::Exiting);
    assert_eq!(press(&mut app, Key::Char('q')), Action::Nothing);
    assert_eq!(app.current_screen(), CurrentScreen::Menu);
    assert!(!app.should_quit());

    let mut app = app_at(CurrentScreen::Exiting);
    assert_eq!(press(&mut app, Key::Char('x')), Action::Nothing);
    assert!(!app.should_quit());
    assert_eq!(press(&mut app, Key::Enter), Action::Nothing);
    assert!(app.should_quit());
    assert_eq!(app.current_screen(), CurrentScreen::Exiting);
}

#[test]
fn keys_of_the_game() {
    assert_eq!(game_command(Key::Up), Some(Command::Move(Direction::Up)));
    assert_eq!(game_command(Key::Down), Some(Command::Move(Direction::Down)));
    assert_eq!(game_command(Key::Left), Some(Command::Move(Direction::Left)));
    assert_eq!(game_command(Key::Right), Some(Command::Move(Direction::Right)));
    assert_eq!(
        game_command(Key::Char(' ')),
        Some(Command::Operate(PlayerOperation::AddLightbulb))
    );
    assert_eq!(
        game_command(Key::Char('f')),
        Some(Command::Operate(PlayerOperation::AddFlag))
    );
    assert_eq!(game_command(Key::Char('u')), Some(Command::Undo));
    assert_eq!(game_command(Key::Char('q')), None);
    assert_eq!(game_command(Key::Char('F')), None);
    assert_eq!(game_command(Key::Enter), None);
    assert_eq!(game_command(Key::Other), None);
}

#[test]
fn starting_a_game_brings_the_game_screen_up() {
    let mut app = App::new();
    assert_eq!(app.start_game(puzzle(&[&["1", "-", "-"]])), Ok(()));
    assert_eq!(app.current_screen(), CurrentScreen::Game);
    let game = app.game().as_ref().unwrap();
    assert_eq!(game.phase(), GameState::Playing);
    assert_eq!(game.cursor(), (0, 0));
    assert_eq!(game.puzzle().as_ref().unwrap().id, 1);
}

#[test]
fn a_malformed_puzzle_starts_no_game() {
    let mut app = app_at(CurrentScreen::Archive);
    let mut broken = puzzle(&[&["1", "-", "-"]]);
    broken.metadata.size.cols = 2;
    assert_eq!(app.start_game(broken), Err(LoadError::Malformed));
    assert_eq!(app.current_screen(), CurrentScreen::Archive);
    assert!(app.game().is_none());

    let mut app = app_in_game(&[&["-", "-"]]);
    assert_eq!(press(&mut app, Key::Char(' ')), Action::Updated);
    let mut broken = puzzle(&[&["1", "-", "-"]]);
    broken.metadata.size.rows = 0;
    assert_eq!(app.start_game(broken), Err(LoadError::Malformed));
    let game = app.game().as_ref().unwrap();
    assert_eq!(game.player_objects()[0][0], PlayerObject::Lightbulb);
    assert_eq!(game.phase(), GameState::GameOver);
}

#[test]
fn playing_through_the_keys() {
    let mut app = app_in_game(&[&["1", "-", "-"], &["-", "-", "x"]]);
    assert_eq!(press(&mut app, Key::Right), Action::Updated);
    assert_eq!(press(&mut app, Key::Down), Action::Updated);
    assert_eq!(app.game().as_ref().unwrap().cursor(), (1, 1));
    assert_eq!(press(&mut app, Key::Char('f')), Action::Updated);
    assert_eq!(
        app.game().as_ref().unwrap().player_objects()[1][1],
        PlayerObject::Flag
    );
    assert_eq!(press(&mut app, Key::Left), Action::Updated);
    assert_eq!(press(&mut app, Key::Char(' ')), Action::Updated);
    {
        let game = app.game().as_ref().unwrap();
        assert_eq!(game.player_objects()[1][0], PlayerObject::Lightbulb);
        assert_eq!(game.light_state()[1][0], LightState::Light(4));
        assert_eq!(game.light_state()[1][1], LightState::Light(1));
        assert_eq!(game.target_remain()[0][0], Some(0));
        assert_eq!(game.history_len(), 2);
        assert_eq!(game.phase(), GameState::Playing);
    }
    assert_eq!(press(&mut app, Key::Char('u')), Action::Updated);
    {
        let game = app.game().as_ref().unwrap();
        assert_eq!(game.player_objects()[1][0], PlayerObject::Empty);
        assert_eq!(game.light_state()[1][1], LightState::Dark);
        assert_eq!(game.target_remain()[0][0], Some(1));
        assert_eq!(game.cursor(), (1, 0));
        assert_eq!(game.history_len(), 1);
    }
    assert_eq!(press(&mut app, Key::Char('x')), Action::Nothing);
    assert_eq!(press(&mut app, Key::Enter), Action::Nothing);
    assert_eq!(app.current_screen(), CurrentScreen::Game);
    assert_eq!(press(&mut app, Key::Char('q')), Action::Nothing);
    assert_eq!(app.current_screen(), CurrentScreen::Menu);
    assert!(app.game().is_some());
}

#[test]
fn the_win_screen_waits_for_the_transition_to_end() {
    let mut app = app_in_game(&[&["1", "-", "-"]]);
    assert_eq!(press(&mut app, Key::Right), Action::Updated);
    assert_eq!(press(&mut app, Key::Char(' ')), Action::Updated);
    assert_eq!(app.game().as_ref().unwrap().phase(), GameState::GameOver);
    assert_eq!(app.current_screen(), CurrentScreen::Game);

    assert_eq!(
        app.handle_event_drawn(Key::Other, None, None, false, 1),
        Action::Nothing
    );
    assert_eq!(app.current_screen(), CurrentScreen::Game);
    assert_eq!(
        app.handle_event_drawn(Key::Left, None, None, true, 1),
        Action::Updated
    );
    assert_eq!(app.current_screen(), CurrentScreen::Game);
    assert_eq!(
        app.handle_event_drawn(Key::Other, None, None, true, 1),
        Action::Won
    );
    assert_eq!(app.current_screen(), CurrentScreen::Win);

    assert_eq!(press(&mut app, Key::Char(' ')), Action::Nothing);
    assert_eq!(app.current_screen(), CurrentScreen::Win);
    assert_eq!(press(&mut app, Key::Char('q')), Action::Nothing);
    assert_eq!(app.current_screen(), CurrentScreen::Menu);
}

#[test]
fn leaving_a_game_that_is_over_shows_the_win_screen() {
    let mut app = app_in_game(&[&["1", "-", "-"]]);
    assert_eq!(press(&mut app, Key::Right), Action::Updated);
    assert_eq!(press(&mut app, Key::Char(' ')), Action::Updated);
    assert_eq!(press(&mut app, Key::Char('q')), Action::Won);
    assert_eq!(app.current_screen(), CurrentScreen::Win);

    let mut app = app_in_game(&[&["1", "-", "-"]]);
    assert_eq!(press(&mut app, Key::Right), Action::Updated);
    assert_eq!(press(&mut app, Key::Char(' ')), Action::Updated);
    assert_eq!(
        app.handle_event_drawn(Key::Char('q'), None, None, false, 1),
        Action::Nothing
    );
    assert_eq!(app.current_screen(), CurrentScreen::Menu);
}

#[test]
fn cells_share_the_area_and_stand_in_its_middle() {
    let area = Area { x: 10, y: 5, width: 47, height: 23 };
    // 7 columns of 6 take 42 of 47, which leaves 2 before the first;
    // 4 rows of 5 take 20 of 23, which leaves 1 above the first.
    assert_eq!(
        cell_area(area, 4, 7, 0, 0),
        Some(Area { x: 12, y: 6, width: 6, height: 5 })
    );
    assert_eq!(
        cell_area(area, 4, 7, 3, 6),
        Some(Area { x: 48, y: 21, width: 6, height: 5 })
    );
    assert_eq!(
        cell_area(area, 4, 7, 2, 1),
        Some(Area { x: 18, y: 16, width: 6, height: 5 })
    );
    let whole = Area { x: 0, y: 0, width: 65535, height: 65535 };
    assert_eq!(
        cell_area(whole, 1, 1, 0, 0),
        Some(Area { x: 0, y: 0, width: 65535, height: 65535 })
    );
    assert_eq!(
        cell_area(whole, 65535, 65535, 65534, 65534),
        Some(Area { x: 65534, y: 65534, width: 1, height: 1 })
    );
    let small = Area { x: 3, y: 4, width: 2, height: 9 };
    assert_eq!(
        cell_area(small, 3, 5, 2, 4),
        Some(Area { x: 4, y: 10, width: 0, height: 3 })
    );
}

#[test]
fn nothing_is_placed_off_the_board_or_off_the_screen() {
    let area = Area { x: 10, y: 5, width: 47, height: 23 };
    assert_eq!(cell_area(area, 0, 7, 0, 0), None);
    assert_eq!(cell_area(area, 4, 0, 0, 0), None);
    assert_eq!(cell_area(area, 4, 7, 4, 0), None);
    assert_eq!(cell_area(area, 4, 7, 0, 7), None);
    assert_eq!(cell_area(area, 65536, 7, 0, 0), None);
    assert_eq!(cell_area(area, 4, 65536, 0, 0), None);
    let wide = Area { x: 1, y: 0, width: 65535, height: 10 };
    assert_eq!(cell_area(wide, 1, 1, 0, 0), None);
    let tall = Area { x: 0, y: 65535, width: 10, height: 1 };
    assert_eq!(cell_area(tall, 1, 1, 0, 0), None);
    let edge = Area { x: 65535, y: 65535, width: 0, height: 0 };
    assert_eq!(
        cell_area(edge, 1, 1, 0, 0),
        Some(Area { x: 65535, y: 65535, width: 0, height: 0 })
    );
}
