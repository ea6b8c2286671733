//! The screens around a game, and what a key does on each of them.
//!
//! Reading keys, drawing, loading a puzzle and playing transitions are the
//! caller's work. This module decides: it takes a key, moves between the
//! screens, plays the game, and answers with what the caller has to do.

use vstd::prelude::*;
use rand::Rng;
use ratatui::widgets::ListState;
use crate::archive::PUZZLE_COUNT;
use crate::game::Game;
use crate::model::GameView;
use crate::puzzle::{LoadError, Puzzle};
use crate::types::{Direction, GameState, PlayerOperation};

verus! {

/// The screen that is up.
#[derive(PartialEq, Eq, Structural, Clone, Copy, Debug)]
pub enum CurrentScreen {
    Menu,
    Game,
    Archive,
    Settings,
    Help,
    Exiting,
    Win,
}

/// Kind of a transition between screens.
#[derive(PartialEq, Eq, Structural, Clone, Copy, Debug)]
pub enum EffectType {
    FadeIn,
    FadeOut,
}

/// A key, as far as the screens tell keys apart.
#[derive(PartialEq, Eq, Structural, Clone, Copy, Debug)]
pub enum Key {
    Char(char),
    Up,
    Down,
    Left,
    Right,
    Enter,
    Other,
}

/// What the caller has to do after a key.
#[derive(PartialEq, Eq, Structural, Clone, Copy, Debug)]
pub enum Action {
    /// Nothing.
    Nothing,
    /// Select this entry of the menu.
    SelectMenu(Option<usize>),
    /// Select this entry of the archive.
    SelectArchive(Option<usize>),
    /// Load the puzzle of this id and hand it to `start_game`.
    StartGame(u32),
    /// The game was played on and recomputed: show the short transition.
    Updated,
    /// The game is over and the win screen is up: show the long transition.
    Won,
}

/// What a key asks of the game.
#[derive(PartialEq, Eq, Structural, Clone, Copy, Debug)]
pub enum Command {
    Move(Direction),
    Operate(PlayerOperation),
    Undo,
}

/// The screens and the game behind them.
pub struct App {
    current_screen: CurrentScreen,
    game: Option<Game>,
    exit: bool,
    effect_pending: Option<EffectType>,
}

/// The state of the screens.
#[verifier::ext_equal]
pub struct AppView {
    pub screen: CurrentScreen,
    pub game: Option<GameView>,
    pub exit: bool,
    pub effect_pending: Option<EffectType>,
}

/// The selection of a list after a step down: the first entry where
/// nothing was selected, else the entry after the selected one, as far as
/// indices go.
pub open spec fn selection_after(selected: Option<usize>) -> Option<usize> {
    match selected {
        Some(index) => Some(
            if index < usize::MAX {
                (index + 1) as usize
            } else {
                index
            },
        ),
        None => Some(0usize),
    }
}

/// The selection of a list after a step up: the entry before the selected
/// one, the first entry staying selected; where nothing was selected, the
/// highest index there is, which stands for the last entry until the list
/// is drawn.
pub open spec fn selection_before(selected: Option<usize>) -> Option<usize> {
    match selected {
        Some(index) => Some(
            if index > 0 {
                (index - 1) as usize
            } else {
                index
            },
        ),
        None => Some(usize::MAX),
    }
}

/// The entry of the menu that a key of the menu screen names.
pub open spec fn menu_letter(c: char) -> Option<usize> {
    if c == 'g' {
        Some(0usize)
    } else if c == 'a' {
        Some(1usize)
    } else if c == 's' {
        Some(2usize)
    } else if c == 'h' {
        Some(3usize)
    } else if c == 'e' {
        Some(4usize)
    } else {
        None
    }
}

/// What a key asks of the game: the arrows move the cursor, the space bar
/// is the bulb operation, `f` the flag operation, `u` undo.
pub open spec fn command_of(key: Key) -> Option<Command> {
    match key {
        Key::Up => Some(Command::Move(Direction::Up)),
        Key::Down => Some(Command::Move(Direction::Down)),
        Key::Left => Some(Command::Move(Direction::Left)),
        Key::Right => Some(Command::Move(Direction::Right)),
        Key::Char(c) => if c == ' ' {
            Some(Command::Operate(PlayerOperation::AddLightbulb))
        } else if c == 'f' {
            Some(Command::Operate(PlayerOperation::AddFlag))
        } else if c == 'u' {
            Some(Command::Undo)
        } else {
            None
        },
        _ => None,
    }
}

impl GameView {
    /// The game after a command and the recomputation that follows it.
    pub open spec fn commanded(self, command: Command) -> GameView {
        match command {
            Command::Move(direction) => self.moved(direction).recomputed(),
            Command::Operate(operation) => self.operated(operation).recomputed(),
            Command::Undo => self.undone(),
        }
    }
}

impl AppView {
    /// The screens when the program starts: the menu, no game.
    pub open spec fn initial() -> AppView {
        AppView { screen: CurrentScreen::Menu, game: None, exit: false, effect_pending: None }
    }

    /// The same state with another screen up.
    pub open spec fn at(self, screen: CurrentScreen) -> AppView {
        AppView { screen, ..self }
    }

    /// The entry `index` of the menu is chosen: the first starts a game on
    /// the puzzle `draw`, the others lead to the archive, the settings,
    /// the help and the exit; an index beyond them leads back to the menu.
    pub open spec fn menu_chosen(self, index: usize, draw: u32) -> (AppView, Action) {
        if index == 0 {
            (self, Action::StartGame(draw))
        } else if index == 1 {
            (self.at(CurrentScreen::Archive), Action::Nothing)
        } else if index == 2 {
            (self.at(CurrentScreen::Settings), Action::Nothing)
        } else if index == 3 {
            (self.at(CurrentScreen::Help), Action::Nothing)
        } else if index == 4 {
            (self.at(CurrentScreen::Exiting), Action::Nothing)
        } else {
            (self.at(CurrentScreen::Menu), Action::Nothing)
        }
    }

    /// A key on the menu: `q` ends the program, a letter of an entry
    /// chooses it, the arrows ask for the selection to move, and `Enter`
    /// chooses the selected entry.
    pub open spec fn menu_key(self, key: Key, selected: Option<usize>, draw: u32) -> (
        AppView,
        Action,
    ) {
        match key {
            Key::Char(c) => if c == 'q' {
                (AppView { exit: true, ..self }, Action::Nothing)
            } else {
                match menu_letter(c) {
                    Some(index) => self.menu_chosen(index, draw),
                    None => (self, Action::Nothing),
                }
            },
            Key::Up => (self, Action::SelectMenu(selection_before(selected))),
            Key::Down => (self, Action::SelectMenu(selection_after(selected))),
            Key::Enter => match selected {
                Some(index) => self.menu_chosen(index, draw),
                None => (self, Action::Nothing),
            },
            _ => (self, Action::Nothing),
        }
    }

    /// A key on the archive: `q` leads back to the menu, the arrows ask
    /// for the selection to move, and `Enter` starts a game on the selected
    /// puzzle, whose id is one more than its index.
    pub open spec fn archive_key(self, key: Key, selected: Option<usize>) -> (AppView, Action) {
        match key {
            Key::Char(c) => if c == 'q' {
                (self.at(CurrentScreen::Menu), Action::Nothing)
            } else {
                (self, Action::Nothing)
            },
            Key::Up => (self, Action::SelectArchive(selection_before(selected))),
            Key::Down => (self, Action::SelectArchive(selection_after(selected))),
            Key::Enter => match selected {
                Some(index) => if index < u32::MAX {
                    (self, Action::StartGame((index + 1) as u32))
                } else {
                    (self, Action::Nothing)
                },
                None => (self, Action::Nothing),
            },
            _ => (self, Action::Nothing),
        }
    }

    /// A key on a screen that only can be left: `q` leads back to the menu.
    pub open spec fn back_key(self, key: Key) -> (AppView, Action) {
        match key {
            Key::Char(c) => if c == 'q' {
                (self.at(CurrentScreen::Menu), Action::Nothing)
            } else {
                (self, Action::Nothing)
            },
            _ => (self, Action::Nothing),
        }
    }

    /// A key on the exit screen: `q` leads back to the menu, `Enter` ends
    /// the program.
    pub open spec fn exiting_key(self, key: Key) -> (AppView, Action) {
        match key {
            Key::Char(c) => if c == 'q' {
                (self.at(CurrentScreen::Menu), Action::Nothing)
            } else {
                (self, Action::Nothing)
            },
            Key::Enter => (AppView { exit: true, ..self }, Action::Nothing),
            _ => (self, Action::Nothing),
        }
    }

    /// The game is over and no transition is showing: the win screen comes
    /// up. Otherwise nothing happens.
    pub open spec fn game_over_checked(self, effect_idle: bool) -> (AppView, Action) {
        match self.game {
            Some(game) => if game.state is GameOver && effect_idle {
                (self.at(CurrentScreen::Win), Action::Won)
            } else {
                (self, Action::Nothing)
            },
            None => (self, Action::Nothing),
        }
    }

    /// A key on the game screen. A key that asks something of the game is
    /// carried out and the game recomputed. `q` leads back to the menu.
    /// After any other key, and after `q`, the win screen comes up if the
    /// game is over and no transition is showing.
    pub open spec fn game_key(self, key: Key, effect_idle: bool) -> (AppView, Action) {
        match (command_of(key), self.game) {
            (Some(command), Some(game)) => (
                AppView { game: Some(game.commanded(command)), ..self },
                Action::Updated,
            ),
            _ => {
                let left = if key == Key::Char('q') {
                    self.at(CurrentScreen::Menu)
                } else {
                    self
                };
                left.game_over_checked(effect_idle)
            },
        }
    }

    /// The state and the caller's work after `key`, where `menu_selected`
    /// and `archive_selected` are the selections of the two lists,
    /// `effect_idle` says that no transition is showing, and `draw` is the
    /// id of the puzzle to start where the key asks for any puzzle.
    pub open spec fn handled(
        self,
        key: Key,
        menu_selected: Option<usize>,
        archive_selected: Option<usize>,
        effect_idle: bool,
        draw: u32,
    ) -> (AppView, Action) {
        match self.screen {
            CurrentScreen::Menu => self.menu_key(key, menu_selected, draw),
            CurrentScreen::Game => self.game_key(key, effect_idle),
            CurrentScreen::Archive => self.archive_key(key, archive_selected),
            CurrentScreen::Settings => self.back_key(key),
            CurrentScreen::Help => self.back_key(key),
            CurrentScreen::Exiting => self.exiting_key(key),
            CurrentScreen::Win => self.back_key(key),
        }
    }

    /// The key asks for a game on any puzzle.
    pub open spec fn wants_draw(self, key: Key, menu_selected: Option<usize>) -> bool {
        self.screen is Menu && (key == Key::Char('g') || (key is Enter && menu_selected == Some(
            0usize,
        )))
    }

    /// The state once a game on `puzzle` has started.
    pub open spec fn game_started(self, puzzle: Puzzle) -> AppView {
        AppView {
            screen: CurrentScreen::Game,
            game: Some(GameView::loaded(puzzle).started()),
            ..self
        }
    }
}

/// The id that would be drawn matters only where the key asks for a game
/// on any puzzle.
pub proof fn law_draw_only_where_wanted(
    v: AppView,
    key: Key,
    menu_selected: Option<usize>,
    archive_selected: Option<usize>,
    effect_idle: bool,
    draw: u32,
    other: u32,
)
    requires
        !v.wants_draw(key, menu_selected),
    ensures
        v.handled(key, menu_selected, archive_selected, effect_idle, draw) == v.handled(
            key,
            menu_selected,
            archive_selected,
            effect_idle,
            other,
        ),
{
}

/// The win screen comes up only over a game that is over, and only while
/// no transition is showing.
pub proof fn law_win_screen_needs_game_over(
    v: AppView,
    key: Key,
    menu_selected: Option<usize>,
    archive_selected: Option<usize>,
    effect_idle: bool,
    draw: u32,
)
    requires
        !(v.screen is Win),
        v.handled(key, menu_selected, archive_selected, effect_idle, draw).0.screen is Win,
    ensures
        v.game matches Some(game) && game.state is GameOver,
        effect_idle,
        v.screen is Game,
{
}

impl View for App {
    type V = AppView;

    closed spec fn view(&self) -> AppView {
        AppView {
            screen: self.current_screen,
            game: match self.game {
                Some(game) => Some(game@),
                None => None,
            },
            exit: self.exit,
            effect_pending: self.effect_pending,
        }
    }
}

/// A number drawn at random from `low` to `high`, both included, by
/// `rand::Rng::random_range` on the generator of the thread, `rand::rng()`.
/// Nothing is claimed of the number but that it lies in the range. An
/// empty range is left out because `random_range` panics on it. The call
/// also panics where the operating system cannot seed the generator.
#[verifier::external_body]
fn random_in(low: u32, high: u32) -> (drawn: u32)
    requires
        low <= high,
    ensures
        low <= drawn <= high,
{
    rand::rng().random_range(low..=high)
}

/// The selection after `ratatui::widgets::ListState::select_next` on the
/// state of a list with the selection `selected`. The contract claims what
/// the method computes: index 0 where nothing was selected, else the index
/// after the selected one, kept at the highest index there is.
#[verifier::external_body]
fn select_next(selected: Option<usize>) -> (next: Option<usize>)
    ensures
        next == selection_after(selected),
{
    let mut state = ListState::default().with_selected(selected);
    state.select_next();
    state.selected()
}

/// The selection after `ratatui::widgets::ListState::select_previous` on
/// the state of a list with the selection `selected`. The contract claims
/// what the method computes: the highest index there is where nothing was
/// selected, else the index before the selected one, kept at 0.
#[verifier::external_body]
fn select_previous(selected: Option<usize>) -> (previous: Option<usize>)
    ensures
        previous == selection_before(selected),
{
    let mut state = ListState::default().with_selected(selected);
    state.select_previous();
    state.selected()
}

/// What `key` asks of the game.
pub fn game_command(key: Key) -> (command: Option<Command>)
    ensures
        command == command_of(key),
{
    match key {
        Key::Up => Some(Command::Move(Direction::Up)),
        Key::Down => Some(Command::Move(Direction::Down)),
        Key::Left => Some(Command::Move(Direction::Left)),
        Key::Right => Some(Command::Move(Direction::Right)),
        Key::Char(c) => {
            if c == ' ' {
                Some(Command::Operate(PlayerOperation::AddLightbulb))
            } else if c == 'f' {
                Some(Command::Operate(PlayerOperation::AddFlag))
            } else if c == 'u' {
                Some(Command::Undo)
            } else {
                None
            }
        },
        _ => None,
    }
}

impl App {
    /// The screens when the program starts: the menu is up and there is
    /// no game.
    pub fn new() -> (app: App)
        ensures
            app@ == AppView::initial(),
    {
        App { current_screen: CurrentScreen::Menu, game: None, exit: false, effect_pending: None }
    }

    /// Whether the program is to end.
    pub fn should_quit(&self) -> (quit: bool)
        ensures
            quit == self@.exit,
    {
        self.exit
    }

    /// The screen that is up.
    pub fn current_screen(&self) -> (screen: CurrentScreen)
        ensures
            screen == self@.screen,
    {
        self.current_screen
    }

    /// The game, if one has been started.
    pub fn game(&self) -> (game: &Option<Game>)
        ensures
            game matches Some(g) ==> self@.game == Some(g@),
            game is None ==> self@.game is None,
    {
        &self.game
    }

    /// The transition that waits to be shown, if any.
    pub fn effect_pending(&self) -> (effect: Option<EffectType>)
        ensures
            effect == self@.effect_pending,
    {
        self.effect_pending
    }

    /// Takes a key on the screen that is up. `menu_selected` and
    /// `archive_selected` are the selections of the two lists, and
    /// `effect_idle` says that no transition is showing. Where the key
    /// asks for a game on any puzzle, the id is drawn at random from the
    /// ids of the archive.
    pub fn handle_event(
        &mut self,
        key: Key,
        menu_selected: Option<usize>,
        archive_selected: Option<usize>,
        effect_idle: bool,
    ) -> (action: Action)
        ensures
            exists|draw: u32|
                1 <= draw <= PUZZLE_COUNT && (final(self)@, action) == #[trigger] old(
                    self,
                )@.handled(key, menu_selected, archive_selected, effect_idle, draw),
    {
        let draw = if self.wants_draw(key, menu_selected) {
            random_in(1, PUZZLE_COUNT)
        } else {
            1
        };
        let action = self.handle_event_drawn(
            key,
            menu_selected,
            archive_selected,
            effect_idle,
            draw,
        );
        assert((self@, action) == old(self)@.handled(
            key,
            menu_selected,
            archive_selected,
            effect_idle,
            draw,
        ));
        action
    }

    /// Takes a key as `handle_event` does, with `draw` as the id of the
    /// puzzle to start where the key asks for a game on any puzzle.
    pub fn handle_event_drawn(
        &mut self,
        key: Key,
        menu_selected: Option<usize>,
        archive_selected: Option<usize>,
        effect_idle: bool,
        draw: u32,
    ) -> (action: Action)
        ensures
            (final(self)@, action) == old(self)@.handled(
                key,
                menu_selected,
                archive_selected,
                effect_idle,
                draw,
            ),
    {
        match self.current_screen {
            CurrentScreen::Menu => self.handle_menu_events(key, menu_selected, draw),
            CurrentScreen::Game => self.handle_game_events(key, effect_idle),
            CurrentScreen::Archive => self.handle_archive_events(key, archive_selected),
            CurrentScreen::Settings => self.handle_back_events(key),
            CurrentScreen::Help => self.handle_back_events(key),
            CurrentScreen::Exiting => self.handle_exiting_events(key),
            CurrentScreen::Win => self.handle_back_events(key),
        }
    }

    /// Whether the key asks for a game on any puzzle.
    fn wants_draw(&self, key: Key, menu_selected: Option<usize>) -> (wanted: bool)
        ensures
            wanted == self@.wants_draw(key, menu_selected),
    {
        match self.current_screen {
            CurrentScreen::Menu => match key {
                Key::Char(c) => c == 'g',
                Key::Enter => match menu_selected {
                    Some(index) => index == 0,
                    None => false,
                },
                _ => false,
            },
            _ => false,
        }
    }

    /// Starts a game on `puzzle` and brings the game screen up. A puzzle
    /// that is not well formed is refused and nothing changes.
    pub fn start_game(&mut self, puzzle: Puzzle) -> (result: Result<(), LoadError>)
        ensures
            puzzle.well_formed() ==> result is Ok && final(self)@ == old(self)@.game_started(
                puzzle,
            ),
            !puzzle.well_formed() ==> result == Err::<(), LoadError>(LoadError::Malformed)
                && final(self)@ == old(self)@,
    {
        let mut game = Game::new();
        match game.init_game(puzzle) {
            Ok(()) => {},
            Err(error) => {
                return Err(error);
            },
        }
        game.start();
        self.game = Some(game);
        self.current_screen = CurrentScreen::Game;
        Ok(())
    }

    fn menu_chosen(&mut self, index: usize, draw: u32) -> (action: Action)
        ensures
            (final(self)@, action) == old(self)@.menu_chosen(index, draw),
    {
        if index == 0 {
            return Action::StartGame(draw);
        }
        self.current_screen = if index == 1 {
            CurrentScreen::Archive
        } else if index == 2 {
            CurrentScreen::Settings
        } else if index == 3 {
            CurrentScreen::Help
        } else if index == 4 {
            CurrentScreen::Exiting
        } else {
            CurrentScreen::Menu
        };
        Action::Nothing
    }

    fn handle_menu_events(&mut self, key: Key, selected: Option<usize>, draw: u32) -> (action:
        Action)
        ensures
            (final(self)@, action) == old(self)@.menu_key(key, selected, draw),
    {
        match key {
            Key::Char(c) => {
                if c == 'q' {
                    self.exit = true;
                    Action::Nothing
                } else if c == 'g' {
                    self.menu_chosen(0, draw)
                } else if c == 'a' {
                    self.menu_chosen(1, draw)
                } else if c == 's' {
                    self.menu_chosen(2, draw)
                } else if c == 'h' {
                    self.menu_chosen(3, draw)
                } else if c == 'e' {
                    self.menu_chosen(4, draw)
                } else {
                    Action::Nothing
                }
            },
            Key::Up => Action::SelectMenu(select_previous(selected)),
            Key::Down => Action::SelectMenu(select_next(selected)),
            Key::Enter => match selected {
                Some(index) => self.menu_chosen(index, draw),
                None => Action::Nothing,
            },
            _ => Action::Nothing,
        }
    }

    fn check_gameover(&mut self, effect_idle: bool) -> (action: Action)
        ensures
            (final(self)@, action) == old(self)@.game_over_checked(effect_idle),
    {
        let over = match &self.game {
            Some(game) => match game.phase() {
                GameState::GameOver => true,
                _ => false,
            },
            None => false,
        };
        if over && effect_idle {
            self.current_screen = CurrentScreen::Win;
            Action::Won
        } else {
            Action::Nothing
        }
    }

    fn handle_game_events(&mut self, key: Key, effect_idle: bool) -> (action: Action)
        ensures
            (final(self)@, action) == old(self)@.game_key(key, effect_idle),
    {
        let mut updated = false;
        match game_command(key) {
            Some(command) => {
                let mut held = self.game.take();
                match held {
                    Some(mut game) => {
                        match command {
                            Command::Move(direction) => {
                                game.player_move_cursor(direction);
                                game.update();
                            },
                            Command::Operate(operation) => {
                                game.player_operation(operation);
                                game.update();
                            },
                            Command::Undo => {
                                game.undo();
                            },
                        }
                        updated = true;
                        held = Some(game);
                    },
                    None => {},
                }
                self.game = held;
            },
            None => {
                match key {
                    Key::Char(c) => {
                        if c == 'q' {
                            match self.game.take() {
                                Some(mut game) => {
                                    game.quit();
                                    self.game = Some(game);
                                },
                                None => {},
                            }
                            self.current_screen = CurrentScreen::Menu;
                        }
                    },
                    _ => {},
                }
            },
        }
        if updated {
            Action::Updated
        } else {
            self.check_gameover(effect_idle)
        }
    }

    fn handle_archive_events(&mut self, key: Key, selected: Option<usize>) -> (action: Action)
        ensures
            (final(self)@, action) == old(self)@.archive_key(key, selected),
    {
        match key {
            Key::Char(c) => {
                if c == 'q' {
                    self.current_screen = CurrentScreen::Menu;
                }
                Action::Nothing
            },
            Key::Up => Action::SelectArchive(select_previous(selected)),
            Key::Down => Action::SelectArchive(select_next(selected)),
            Key::Enter => match selected {
                Some(index) => {
                    if index < u32::MAX as usize {
                        Action::StartGame((index + 1) as u32)
                    } else {
                        Action::Nothing
                    }
                },
                None => Action::Nothing,
            },
            _ => Action::Nothing,
        }
    }

    fn handle_back_events(&mut self, key: Key) -> (action: Action)
        ensures
            (final(self)@, action) == old(self)@.back_key(key),
    {
        match key {
            Key::Char(c) => {
                if c == 'q' {
                    self.current_screen = CurrentScreen::Menu;
                }
            },
            _ => {},
        }
        Action::Nothing
    }

    fn handle_exiting_events(&mut self, key: Key) -> (action: Action)
        ensures
            (final(self)@, action) == old(self)@.exiting_key(key),
    {
        match key {
            Key::Char(c) => {
                if c == 'q' {
                    self.current_screen = CurrentScreen::Menu;
                }
            },
            Key::Enter => {
                self.exit = true;
            },
            _ => {},
        }
        Action::Nothing
    }
}

} // verus!
