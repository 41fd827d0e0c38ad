//! One play-through: the grid, the clock, the flip counter, and how each
//! event changes them.

use vstd::prelude::*;
use crate::data::{GameEvent, GameMode, Page};
use crate::grid::{
    all_solved, flip, flipped, is_all_solved, lemma_flipped_wf, tile_symbols, tiles_wf,
};
use crate::layout::{
    config_error, lemma_even_side, lemma_layout_paired, lemma_paired_permuted,
    lemma_texts_permuted, pair_count, pair_symbols, paired, paired_texts, symbol_texts,
    ConfigError,
};
use crate::pool::{emoji_symbols, emoji_table, shuffle, FIRST_SYMBOL};
use crate::tile::Tile;

verus! {

/// How a play-through ended.
#[derive(Clone, Copy, Debug, PartialEq, Eq, Structural)]
pub struct Outcome {
    /// Whether the player matched every pair.
    pub won: bool,
    /// The clock when the play-through ended, in seconds.
    pub time: u64,
    /// How many tiles the player turned face up.
    pub flip_count: usize,
}

/// What can happen to a play-through.
#[derive(Clone, Copy, Debug, PartialEq, Eq, Structural)]
pub enum SessionEvent {
    /// One second has passed.
    Tick,
    /// The player has pressed the tile at this index.
    FlipTile(usize),
    /// The countdown has run out.
    TimeFinished,
    /// The player leaves the play-through.
    GoBackToMenu,
}

/// What the caller has to do after an event.
#[derive(Clone, Copy, Debug, PartialEq, Eq, Structural)]
pub enum SessionAction {
    /// Nothing: the play-through goes on.
    Continue,
    /// Stop the clock and show how the play-through ended.
    Report(Outcome),
    /// Stop the clock and show the menu.
    BackToMenu,
}

impl SessionAction {
    /// The event of the game that carries out the action: the page to show
    /// once the play-through is over, or `None` while it goes on.
    pub open spec fn as_event(self) -> Option<GameEvent> {
        match self {
            SessionAction::Continue => None,
            SessionAction::Report(outcome) => Some(
                GameEvent::ChangePage(
                    Page::Finished(outcome.won, outcome.time, outcome.flip_count),
                ),
            ),
            SessionAction::BackToMenu => Some(GameEvent::ChangePage(Page::StartScreen)),
        }
    }

    /// The event to send to the game after this action, if any.
    pub fn to_event(&self) -> (event: Option<GameEvent>)
        ensures
            event == self.as_event(),
    {
        match *self {
            SessionAction::Continue => None,
            SessionAction::Report(outcome) => Some(
                GameEvent::ChangePage(
                    Page::Finished(outcome.won, outcome.time, outcome.flip_count),
                ),
            ),
            SessionAction::BackToMenu => Some(GameEvent::ChangePage(Page::StartScreen)),
        }
    }
}

/// The state of a play-through as a mathematical value.
pub struct SessionState {
    /// The grid in row-major order.
    pub tiles: Seq<Tile>,
    /// How the clock runs.
    pub game_mode: GameMode,
    /// Seconds elapsed in free play, seconds left in a timed game.
    pub time: u64,
    /// How many tiles the player has turned face up.
    pub flip_count: usize,
    /// Whether the play-through is over.
    pub finished: bool,
}

impl SessionState {
    /// The state in which a play-through starts: every symbol of the layout
    /// on a face-down tile, no flip counted, the clock at `time`.
    pub open spec fn start(symbols: Seq<&'static str>, game_mode: GameMode, time: u64) -> Self {
        SessionState {
            tiles: Seq::new(symbols.len(), |i: int| Tile::fresh(symbols[i])),
            game_mode,
            time,
            flip_count: 0,
            finished: false,
        }
    }

    /// The play-through has just begun on a grid of side `difficulty`: all of
    /// its tiles lie face down and unmatched, no flip is counted, and the clock
    /// shows what the mode starts with.
    pub open spec fn begins(self, game_mode: GameMode, difficulty: nat) -> bool {
        &&& self.game_mode == game_mode
        &&& self.time == game_mode.starting_seconds(difficulty)
        &&& self.flip_count == 0
        &&& !self.finished
        &&& self.tiles.len() == difficulty * difficulty
        &&& forall|i: int|
            0 <= i < self.tiles.len() ==> !(#[trigger] self.tiles[i]).visible
                && !self.tiles[i].solved
    }

    /// Every symbol on the grid lies on exactly two tiles.
    pub open spec fn paired(self) -> bool {
        paired(tile_symbols(self.tiles))
    }

    /// The grid is well formed.
    pub open spec fn wf(self) -> bool {
        tiles_wf(self.tiles)
    }

    /// The events that a caller may send: a flip names a tile of the grid, and
    /// the counter has room for it.
    pub open spec fn accepts(self, event: SessionEvent) -> bool {
        match event {
            SessionEvent::FlipTile(idx) => idx < self.tiles.len() && (self.tiles[idx as int].visible
                || self.flip_count < usize::MAX),
            _ => true,
        }
    }

    /// The flip counter after tile `idx` has been flipped: a tile that lay
    /// face down counts, one that lay face up does not.
    pub open spec fn flips_after(self, idx: int) -> usize {
        if self.tiles[idx].visible {
            self.flip_count
        } else {
            (self.flip_count + 1) as usize
        }
    }

    /// Flipping tile `idx` ends the play-through with a win.
    pub open spec fn wins(self, idx: int) -> bool {
        !self.finished && all_solved(flipped(self.tiles, idx))
    }

    /// The state after tile `idx` has been flipped.
    pub open spec fn flip(self, idx: int) -> Self {
        SessionState {
            tiles: flipped(self.tiles, idx),
            game_mode: self.game_mode,
            time: self.time,
            flip_count: self.flips_after(idx),
            finished: self.finished || all_solved(flipped(self.tiles, idx)),
        }
    }

    /// What flipping tile `idx` asks of the caller.
    pub open spec fn flip_action(self, idx: int) -> SessionAction {
        if self.wins(idx) {
            SessionAction::Report(
                Outcome { won: true, time: self.time, flip_count: self.flips_after(idx) },
            )
        } else {
            SessionAction::Continue
        }
    }

    /// The clock one second later: one more in free play, one less in a timed
    /// game, and never past either end of its range.
    pub open spec fn ticked_time(self) -> u64 {
        match self.game_mode {
            GameMode::FreePlay => if self.time < u64::MAX {
                (self.time + 1) as u64
            } else {
                self.time
            },
            GameMode::Timed => if self.time > 0 {
                (self.time - 1) as u64
            } else {
                0
            },
        }
    }

    /// The report of a lost play-through.
    pub open spec fn lost(self) -> Outcome {
        Outcome { won: false, time: 0, flip_count: self.flip_count }
    }

    /// The next tick ends the play-through with a loss: the countdown of a
    /// timed game that is still on reaches zero.
    pub open spec fn expires(self) -> bool {
        self.game_mode == GameMode::Timed && !self.finished && self.ticked_time() == 0
    }

    /// The state one tick later.
    pub open spec fn tick(self) -> Self {
        SessionState {
            tiles: self.tiles,
            game_mode: self.game_mode,
            time: self.ticked_time(),
            flip_count: self.flip_count,
            finished: self.finished || self.expires(),
        }
    }

    /// What a tick asks of the caller.
    pub open spec fn tick_action(self) -> SessionAction {
        if self.expires() {
            SessionAction::Report(self.lost())
        } else {
            SessionAction::Continue
        }
    }

    /// The end of the countdown ends the play-through with a loss: the game is
    /// timed and still on.
    pub open spec fn times_out(self) -> bool {
        self.game_mode == GameMode::Timed && !self.finished
    }

    /// The state after the countdown has run out.
    pub open spec fn time_finished(self) -> Self {
        if self.times_out() {
            SessionState {
                tiles: self.tiles,
                game_mode: self.game_mode,
                time: 0,
                flip_count: self.flip_count,
                finished: true,
            }
        } else {
            self
        }
    }

    /// What the end of the countdown asks of the caller.
    pub open spec fn time_finished_action(self) -> SessionAction {
        if self.times_out() {
            SessionAction::Report(self.lost())
        } else {
            SessionAction::Continue
        }
    }

    /// The state after the player has left.
    pub open spec fn go_back_to_menu(self) -> Self {
        SessionState {
            tiles: self.tiles,
            game_mode: self.game_mode,
            time: self.time,
            flip_count: self.flip_count,
            finished: true,
        }
    }

    /// The state after `event`.
    pub open spec fn step(self, event: SessionEvent) -> Self {
        match event {
            SessionEvent::Tick => self.tick(),
            SessionEvent::FlipTile(idx) => self.flip(idx as int),
            SessionEvent::TimeFinished => self.time_finished(),
            SessionEvent::GoBackToMenu => self.go_back_to_menu(),
        }
    }

    /// What `event` asks of the caller.
    pub open spec fn action(self, event: SessionEvent) -> SessionAction {
        match event {
            SessionEvent::Tick => self.tick_action(),
            SessionEvent::FlipTile(idx) => self.flip_action(idx as int),
            SessionEvent::TimeFinished => self.time_finished_action(),
            SessionEvent::GoBackToMenu => SessionAction::BackToMenu,
        }
    }
}

/// A play-through in progress.
pub struct GameSession {
    tiles: Vec<Tile>,
    game_mode: GameMode,
    time: u64,
    flip_count: usize,
    finished: bool,
}

impl View for GameSession {
    type V = SessionState;

    closed spec fn view(&self) -> SessionState {
        SessionState {
            tiles: self.tiles@,
            game_mode: self.game_mode,
            time: self.time,
            flip_count: self.flip_count,
            finished: self.finished,
        }
    }
}

impl GameSession {
    /// Starts a play-through on the given layout: one face-down tile for each
    /// symbol, in this order, with the clock at `time` seconds.
    pub fn from_symbols(symbols: &Vec<&'static str>, game_mode: GameMode, time: u64) -> (session:
        GameSession)
        ensures
            session@ == SessionState::start(symbols@, game_mode, time),
            session@.wf(),
    {
        let mut tiles: Vec<Tile> = Vec::new();
        let mut i: usize = 0;
        while i < symbols.len()
            invariant
                i <= symbols.len(),
                tiles@.len() == i,
                forall|k: int| 0 <= k < i ==> tiles@[k] == Tile::fresh(symbols@[k]),
            decreases symbols.len() - i,
        {
            tiles.push(Tile::new(symbols[i]));
            i += 1;
        }
        assert(tiles@ =~= SessionState::start(symbols@, game_mode, time).tiles);
        GameSession { tiles, game_mode, time, flip_count: 0, finished: false }
    }

    /// Starts a play-through on a grid of side `difficulty` that bears the
    /// first symbols of `pool`, each on two tiles, in a random order.
    ///
    /// Fails if the side is zero or odd, if the pool holds too few symbols, or
    /// if two of the symbols it would use are the same.
    pub fn with_pool(difficulty: usize, game_mode: GameMode, pool: &Vec<&'static str>) -> (started:
        Result<GameSession, ConfigError>)
        ensures
            match started {
                Ok(session) => {
                    &&& config_error(difficulty as nat, symbol_texts(pool@)) is None
                    &&& session@.begins(game_mode, difficulty as nat)
                    &&& tile_symbols(session@.tiles).to_multiset() == paired_texts(
                        symbol_texts(pool@),
                        pair_count(difficulty as nat),
                    ).to_multiset()
                    &&& session@.paired()
                    &&& session@.wf()
                },
                Err(error) => config_error(difficulty as nat, symbol_texts(pool@)) == Some(error),
            },
    {
        let mut symbols = match pair_symbols(difficulty, pool) {
            Ok(symbols) => symbols,
            Err(error) => {
                return Err(error);
            },
        };
        let ghost ordered = symbols@;
        shuffle(&mut symbols);
        proof {
            let pairs = pair_count(difficulty as nat);
            lemma_layout_paired(pool@, pairs);
            lemma_texts_permuted(ordered, symbols@);
            lemma_paired_permuted(symbol_texts(ordered), symbol_texts(symbols@));
            vstd::seq_lib::to_multiset_len(ordered);
            vstd::seq_lib::to_multiset_len(symbols@);
            lemma_even_side(difficulty as nat);
            assert(20 * difficulty <= u64::MAX) by (nonlinear_arith)
                requires
                    difficulty * difficulty <= u64::MAX,
            ;
        }
        let time = match game_mode.start_time(difficulty) {
            Some(countdown) => countdown,
            None => 0,
        };
        let session = GameSession::from_symbols(&symbols, game_mode, time);
        assert(tile_symbols(session@.tiles) =~= symbol_texts(symbols@));
        assert(symbol_texts(ordered) =~= paired_texts(
            symbol_texts(pool@),
            pair_count(difficulty as nat),
        ));
        Ok(session)
    }

    /// Starts a play-through on a grid of side `difficulty` that bears emojis,
    /// each on two tiles, in a random order.
    ///
    /// Fails if the side is zero or odd, or if the table of emojis cannot
    /// supply a different one for every pair.
    pub fn new(difficulty: usize, game_mode: GameMode) -> (started: Result<
        GameSession,
        ConfigError,
    >)
        ensures
            match started {
                Ok(session) => {
                    &&& config_error(difficulty as nat, emoji_table(FIRST_SYMBOL as nat)) is None
                    &&& session@.begins(game_mode, difficulty as nat)
                    &&& tile_symbols(session@.tiles).to_multiset() == paired_texts(
                        emoji_table(FIRST_SYMBOL as nat),
                        pair_count(difficulty as nat),
                    ).to_multiset()
                    &&& session@.paired()
                    &&& session@.wf()
                },
                Err(error) => config_error(difficulty as nat, emoji_table(FIRST_SYMBOL as nat))
                    == Some(error),
            },
    {
        let pool = emoji_symbols(FIRST_SYMBOL);
        GameSession::with_pool(difficulty, game_mode, &pool)
    }

    /// The grid in row-major order.
    pub fn tiles(&self) -> (tiles: &Vec<Tile>)
        ensures
            tiles@ == self@.tiles,
    {
        &self.tiles
    }

    /// How the clock runs.
    pub fn game_mode(&self) -> (game_mode: GameMode)
        ensures
            game_mode == self@.game_mode,
    {
        self.game_mode
    }

    /// Seconds elapsed in free play, seconds left in a timed game.
    pub fn time(&self) -> (time: u64)
        ensures
            time == self@.time,
    {
        self.time
    }

    /// How many tiles the player has turned face up.
    pub fn flip_count(&self) -> (flip_count: usize)
        ensures
            flip_count == self@.flip_count,
    {
        self.flip_count
    }

    /// Whether the play-through is over.
    pub fn finished(&self) -> (finished: bool)
        ensures
            finished == self@.finished,
    {
        self.finished
    }

    /// Flips the tile at `idx` and, when that matches the last pair of a
    /// play-through that is still on, ends it with a win.
    pub fn flip_tile(&mut self, idx: usize) -> (action: SessionAction)
        requires
            old(self)@.wf(),
            old(self)@.accepts(SessionEvent::FlipTile(idx)),
        ensures
            final(self)@ == old(self)@.flip(idx as int),
            action == old(self)@.flip_action(idx as int),
            final(self)@.wf(),
    {
        proof {
            lemma_flipped_wf(self.tiles@, idx as int);
        }
        if !self.tiles[idx].visible {
            self.flip_count += 1;
        }
        flip(&mut self.tiles, idx);
        if is_all_solved(&self.tiles) {
            let was_finished = self.finished;
            self.finished = true;
            if !was_finished {
                return SessionAction::Report(
                    Outcome { won: true, time: self.time, flip_count: self.flip_count },
                );
            }
        }
        SessionAction::Continue
    }

    /// Moves the clock by one second and, when that takes the countdown of a
    /// timed play-through that is still on to zero, ends it with a loss.
    pub fn tick(&mut self) -> (action: SessionAction)
        requires
            old(self)@.wf(),
        ensures
            final(self)@ == old(self)@.tick(),
            action == old(self)@.tick_action(),
            final(self)@.wf(),
    {
        match self.game_mode {
            GameMode::FreePlay => {
                if self.time < u64::MAX {
                    self.time += 1;
                }
                SessionAction::Continue
            },
            GameMode::Timed => {
                if self.time > 0 {
                    self.time -= 1;
                }
                if self.time == 0 && !self.finished {
                    self.finished = true;
                    SessionAction::Report(
                        Outcome { won: false, time: 0, flip_count: self.flip_count },
                    )
                } else {
                    SessionAction::Continue
                }
            },
        }
    }

    /// Ends a timed play-through that is still on with a loss, the clock at
    /// zero; leaves any other play-through as it is.
    pub fn time_finished(&mut self) -> (action: SessionAction)
        requires
            old(self)@.wf(),
        ensures
            final(self)@ == old(self)@.time_finished(),
            action == old(self)@.time_finished_action(),
            final(self)@.wf(),
    {
        match self.game_mode {
            GameMode::Timed => {
                if !self.finished {
                    self.time = 0;
                    self.finished = true;
                    SessionAction::Report(
                        Outcome { won: false, time: 0, flip_count: self.flip_count },
                    )
                } else {
                    SessionAction::Continue
                }
            },
            GameMode::FreePlay => SessionAction::Continue,
        }
    }

    /// Ends the play-through without a report and sends the player back to
    /// the menu.
    pub fn go_back_to_menu(&mut self) -> (action: SessionAction)
        requires
            old(self)@.wf(),
        ensures
            final(self)@ == old(self)@.go_back_to_menu(),
            action == SessionAction::BackToMenu,
            final(self)@.wf(),
    {
        self.finished = true;
        SessionAction::BackToMenu
    }

    /// Handles one event and says what the caller has to do.
    pub fn event(&mut self, event: SessionEvent) -> (action: SessionAction)
        requires
            old(self)@.wf(),
            old(self)@.accepts(event),
        ensures
            final(self)@ == old(self)@.step(event),
            action == old(self)@.action(event),
            final(self)@.wf(),
    {
        match event {
            SessionEvent::Tick => self.tick(),
            SessionEvent::FlipTile(idx) => self.flip_tile(idx),
            SessionEvent::TimeFinished => self.time_finished(),
            SessionEvent::GoBackToMenu => self.go_back_to_menu(),
        }
    }
}

} // verus!
