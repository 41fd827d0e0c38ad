//! The settings chosen in the menu, the page the game shows, and how the
//! events of the menu change them.

use vstd::prelude::*;

verus! {

/// The smallest side of a grid that the menu offers.
pub const MIN_DIFFICULTY: usize = 2;

/// The largest side of a grid that the menu offers.
pub const MAX_DIFFICULTY: usize = 10;

/// By how much one press of the menu changes the side of the grid.
pub const DIFFICULTY_STEP: usize = 2;

/// The side of the grid before the player has chosen one.
pub const DEFAULT_DIFFICULTY: usize = 4;

/// What the game shows.
#[derive(Clone, Copy, Debug, PartialEq, Eq, Structural)]
pub enum Page {
    /// The menu.
    StartScreen,
    /// The grid of a play-through.
    GameScreen,
    /// How a play-through ended: whether the player won, the clock in
    /// seconds, and the number of flips.
    Finished(bool, u64, usize),
}

impl Default for Page {
    /// The game opens on the menu.
    fn default() -> (page: Page)
        ensures
            page == Page::StartScreen,
    {
        Page::StartScreen
    }
}

/// How the clock of a play-through runs.
#[derive(Clone, Copy, Debug, PartialEq, Eq, Structural)]
pub enum GameMode {
    /// The clock counts up and the player may take as long as they want.
    FreePlay,
    /// The clock counts down and the player loses when it reaches zero.
    Timed,
}

impl Default for GameMode {
    /// A game is in free play until the player chooses otherwise.
    fn default() -> (game_mode: GameMode)
        ensures
            game_mode == GameMode::FreePlay,
    {
        GameMode::FreePlay
    }
}

impl GameMode {
    /// The mode that follows `self` when the player toggles the setting.
    pub open spec fn toggled(self) -> GameMode {
        match self {
            GameMode::FreePlay => GameMode::Timed,
            GameMode::Timed => GameMode::FreePlay,
        }
    }

    /// The seconds on the clock when a play-through on a grid of side
    /// `difficulty` starts: none in free play, twenty for each unit of the
    /// side in a timed game.
    pub open spec fn starting_seconds(self, difficulty: nat) -> nat {
        match self {
            GameMode::FreePlay => 0,
            GameMode::Timed => 20 * difficulty,
        }
    }

    /// The length of the countdown on a grid of side `difficulty`, in
    /// seconds, or `None` in free play, where nothing counts down.
    pub fn start_time(&self, difficulty: usize) -> (countdown: Option<u64>)
        requires
            20 * difficulty <= u64::MAX,
        ensures
            countdown == match *self {
                GameMode::FreePlay => None,
                GameMode::Timed => Some((20 * difficulty) as u64),
            },
    {
        match *self {
            GameMode::FreePlay => None,
            GameMode::Timed => Some(20 * (difficulty as u64)),
        }
    }

    /// Switches to the other mode.
    pub fn next(&mut self)
        ensures
            *final(self) == old(self).toggled(),
    {
        *self = match *self {
            GameMode::FreePlay => GameMode::Timed,
            GameMode::Timed => GameMode::FreePlay,
        }
    }

    /// The name of the mode as the menu shows it.
    pub fn name(&self) -> (name: &'static str)
        ensures
            name@ == match *self {
                GameMode::FreePlay => "FreePlay"@,
                GameMode::Timed => "Timed"@,
            },
    {
        match *self {
            GameMode::FreePlay => "FreePlay",
            GameMode::Timed => "Timed",
        }
    }
}

/// What the player can ask of the game as a whole.
#[derive(Clone, Copy, Debug, PartialEq, Eq, Structural)]
pub enum GameEvent {
    /// Show another page.
    ChangePage(Page),
    /// Switch between free play and a timed game.
    ChangeGameMode,
    /// Make the grid larger if `true`, smaller if `false`.
    ChangeDifficulty(bool),
    /// Leave the game.
    Exit,
}

/// What the caller has to do after an event of the game.
#[derive(Clone, Copy, Debug, PartialEq, Eq, Structural)]
pub enum GameAction {
    /// Nothing.
    Nothing,
    /// Close the window.
    CloseWindow,
}

/// The side closest to `side` among those that the menu offers.
pub open spec fn clamped(side: int) -> int {
    if side < MIN_DIFFICULTY {
        MIN_DIFFICULTY as int
    } else if side > MAX_DIFFICULTY {
        MAX_DIFFICULTY as int
    } else {
        side
    }
}

/// The side of the grid after one press of the menu: a step up if `add`, a
/// step down if not, kept within what the menu offers.
pub open spec fn stepped(difficulty: usize, add: bool) -> int {
    if add {
        clamped(difficulty + DIFFICULTY_STEP)
    } else {
        clamped(difficulty - DIFFICULTY_STEP)
    }
}

/// The page shown and the settings of the next play-through.
#[derive(Clone, Copy, Debug, PartialEq, Eq, Structural)]
pub struct GameData {
    /// The page that the game shows.
    pub page: Page,
    /// How the clock of the next play-through runs.
    pub game_mode: GameMode,
    /// The side of the grid of the next play-through.
    pub difficulty: usize,
}

impl Default for GameData {
    /// The menu, free play, and a grid of four by four.
    fn default() -> (data: GameData)
        ensures
            data == (GameData {
                page: Page::StartScreen,
                game_mode: GameMode::FreePlay,
                difficulty: DEFAULT_DIFFICULTY,
            }),
    {
        GameData {
            page: Page::StartScreen,
            game_mode: GameMode::FreePlay,
            difficulty: DEFAULT_DIFFICULTY,
        }
    }
}

impl GameData {
    /// The settings after `event`.
    pub open spec fn after(self, event: GameEvent) -> GameData {
        match event {
            GameEvent::ChangePage(page) => GameData { page, ..self },
            GameEvent::ChangeGameMode => GameData { game_mode: self.game_mode.toggled(), ..self },
            GameEvent::ChangeDifficulty(add) => GameData {
                difficulty: stepped(self.difficulty, add) as usize,
                ..self
            },
            GameEvent::Exit => self,
        }
    }

    /// What `event` asks of the caller.
    pub open spec fn action(event: GameEvent) -> GameAction {
        match event {
            GameEvent::Exit => GameAction::CloseWindow,
            _ => GameAction::Nothing,
        }
    }

    /// The settings with which the game opens.
    pub fn new() -> (data: GameData)
        ensures
            data == (GameData {
                page: Page::StartScreen,
                game_mode: GameMode::FreePlay,
                difficulty: DEFAULT_DIFFICULTY,
            }),
    {
        GameData {
            page: Page::StartScreen,
            game_mode: GameMode::FreePlay,
            difficulty: DEFAULT_DIFFICULTY,
        }
    }

    /// Handles one event of the game and says what the caller has to do.
    pub fn event(&mut self, event: GameEvent) -> (action: GameAction)
        ensures
            *final(self) == old(self).after(event),
            action == GameData::action(event),
            event is ChangeDifficulty ==> MIN_DIFFICULTY <= final(self).difficulty
                <= MAX_DIFFICULTY,
    {
        match event {
            GameEvent::ChangePage(page) => {
                self.page = page;
                GameAction::Nothing
            },
            GameEvent::ChangeGameMode => {
                self.game_mode.next();
                GameAction::Nothing
            },
            GameEvent::ChangeDifficulty(add) => {
                let moved = if add {
                    self.difficulty.saturating_add(DIFFICULTY_STEP)
                } else {
                    self.difficulty.saturating_sub(DIFFICULTY_STEP)
                };
                self.difficulty = clamp_difficulty(moved);
                GameAction::Nothing
            },
            GameEvent::Exit => GameAction::CloseWindow,
        }
    }
}

/// The side closest to `side` among those that the menu offers.
pub fn clamp_difficulty(side: usize) -> (kept: usize)
    ensures
        kept == clamped(side as int),
{
    if side < MIN_DIFFICULTY {
        MIN_DIFFICULTY
    } else if side > MAX_DIFFICULTY {
        MAX_DIFFICULTY
    } else {
        side
    }
}

} // verus!
