use tile_matching_game::data::{GameEvent, GameMode, Page};
use tile_matching_game::layout::ConfigError;
use tile_matching_game::session::{GameSession, Outcome, SessionAction, SessionEvent};
use tile_matching_game::tile::Tile;

fn abab(game_mode: GameMode, time: u64) -> GameSession {
    GameSession::from_symbols(&vec!["A", "B", "A", "B"], game_mode, time)
}

fn flags(session: &GameSession) -> Vec<(bool, bool)> {
    session.tiles().iter().map(|tile| (tile.visible, tile.solved)).collect()
}

const HIDDEN: (bool, bool) = (false, false);
const WAITING: (bool, bool) = (true, false);
const MATCHED: (bool, bool) = (true, true);

#[test]
fn from_symbols_lays_every_tile_face_down() {
    let session = abab(GameMode::FreePlay, 0);
    assert_eq!(
        session.tiles(),
        &vec![Tile::new("A"), Tile::new("B"), Tile::new("A"), Tile::new("B")]
    );
    assert_eq!(session.flip_count(), 0);
    assert_eq!(session.time(), 0);
    assert_eq!(session.game_mode(), GameMode::FreePlay);
    assert!(!session.finished());
}

#[test]
fn from_symbols_keeps_mode_and_clock() {
    let session = abab(GameMode::Timed, 40);
    assert_eq!(session.time(), 40);
    assert_eq!(session.game_mode(), GameMode::Timed);
}

#[test]
fn two_by_two_play_through() {
    let mut session = abab(GameMode::FreePlay, 0);

    assert_eq!(session.flip_tile(0), SessionAction::Continue);
    assert_eq!(flags(&session), vec![WAITING, HIDDEN, HIDDEN, HIDDEN]);
    assert_eq!(session.flip_count(), 1);

    assert_eq!(session.flip_tile(1), SessionAction::Continue);
    assert_eq!(flags(&session), vec![HIDDEN, WAITING, HIDDEN, HIDDEN]);
    assert_eq!(session.flip_count(), 2);

    assert_eq!(session.flip_tile(2), SessionAction::Continue);
    assert_eq!(flags(&session), vec![HIDDEN, HIDDEN, WAITING, HIDDEN]);
    assert_eq!(session.flip_count(), 3);

    assert_eq!(session.flip_tile(3), SessionAction::Continue);
    assert_eq!(flags(&session), vec![HIDDEN, HIDDEN, HIDDEN, WAITING]);
    assert_eq!(session.flip_count(), 4);

    assert_eq!(session.flip_tile(1), SessionAction::Continue);
    assert_eq!(flags(&session), vec![HIDDEN, MATCHED, HIDDEN, MATCHED]);
    assert_eq!(session.flip_count(), 5);
    assert!(!session.finished());

    assert_eq!(session.tick(), SessionAction::Continue);
    assert_eq!(session.tick(), SessionAction::Continue);
    assert_eq!(session.tick(), SessionAction::Continue);

    assert_eq!(session.flip_tile(0), SessionAction::Continue);
    assert_eq!(flags(&session), vec![WAITING, MATCHED, HIDDEN, MATCHED]);
    assert_eq!(session.flip_count(), 6);

    assert_eq!(
        session.flip_tile(2),
        SessionAction::Report(Outcome { won: true, time: 3, flip_count: 7 })
    );
    assert_eq!(flags(&session), vec![MATCHED, MATCHED, MATCHED, MATCHED]);
    assert_eq!(session.flip_count(), 7);
    assert!(session.finished());
}

#[test]
fn flip_of_a_face_down_tile_counts_once() {
    let mut session = abab(GameMode::FreePlay, 0);
    session.flip_tile(0);
    assert_eq!(session.flip_count(), 1);
}

#[test]
fn session_flip_of_the_waiting_tile_does_not_count() {
    let mut session = abab(GameMode::FreePlay, 0);
    session.flip_tile(0);
    assert_eq!(session.flip_tile(0), SessionAction::Continue);
    assert_eq!(session.flip_count(), 1);
    assert_eq!(flags(&session), vec![WAITING, HIDDEN, HIDDEN, HIDDEN]);
}

#[test]
fn flip_of_a_matched_tile_does_not_count() {
    let mut session = abab(GameMode::FreePlay, 0);
    session.flip_tile(0);
    session.flip_tile(2);
    assert_eq!(flags(&session), vec![MATCHED, HIDDEN, MATCHED, HIDDEN]);
    assert_eq!(session.flip_count(), 2);
    assert_eq!(session.flip_tile(0), SessionAction::Continue);
    assert_eq!(session.flip_count(), 2);
    assert_eq!(flags(&session), vec![MATCHED, HIDDEN, MATCHED, HIDDEN]);
}

#[test]
fn session_flip_of_a_matched_tile_hides_the_waiting_tile() {
    let mut session = abab(GameMode::FreePlay, 0);
    session.flip_tile(0);
    session.flip_tile(2);
    session.flip_tile(1);
    assert_eq!(flags(&session), vec![MATCHED, WAITING, MATCHED, HIDDEN]);
    assert_eq!(session.flip_tile(2), SessionAction::Continue);
    assert_eq!(flags(&session), vec![MATCHED, HIDDEN, MATCHED, HIDDEN]);
    assert_eq!(session.flip_count(), 3);
}

#[test]
fn matching_flip_solves_both_tiles() {
    let mut session = abab(GameMode::FreePlay, 0);
    session.flip_tile(1);
    session.flip_tile(3);
    assert_eq!(flags(&session), vec![HIDDEN, MATCHED, HIDDEN, MATCHED]);
}

#[test]
fn mismatching_flip_hides_the_earlier_tile_only() {
    let mut session = abab(GameMode::FreePlay, 0);
    session.flip_tile(3);
    session.flip_tile(0);
    assert_eq!(flags(&session), vec![WAITING, HIDDEN, HIDDEN, HIDDEN]);
}

#[test]
fn at_most_one_tile_waits_after_every_flip() {
    let mut session =
        GameSession::from_symbols(&vec!["A", "B", "C", "A", "B", "C"], GameMode::FreePlay, 0);
    let presses = vec![0, 1, 2, 2, 3, 0, 0, 3, 4, 5, 1, 4, 2, 5, 5, 0];
    for idx in presses {
        session.flip_tile(idx);
        let waiting = session.tiles().iter().filter(|t| t.visible && !t.solved).count();
        assert!(waiting <= 1);
        assert!(session.tiles().iter().all(|t| !t.solved || t.visible));
    }
    assert!(session.finished());
}

#[test]
fn symbols_stay_where_they_are() {
    let mut session = abab(GameMode::FreePlay, 0);
    for idx in vec![0, 1, 2, 3, 1, 0, 2] {
        session.flip_tile(idx);
        let symbols: Vec<&str> = session.tiles().iter().map(|t| t.symbol).collect();
        assert_eq!(symbols, vec!["A", "B", "A", "B"]);
    }
}

#[test]
fn win_reports_the_clock_and_the_flips() {
    let mut session = GameSession::from_symbols(&vec!["A", "A"], GameMode::Timed, 40);
    for _ in 0..15 {
        session.tick();
    }
    session.flip_tile(1);
    assert_eq!(
        session.flip_tile(0),
        SessionAction::Report(Outcome { won: true, time: 25, flip_count: 2 })
    );
    assert!(session.finished());
    assert_eq!(session.time(), 25);
}

#[test]
fn win_is_reported_once() {
    let mut session = GameSession::from_symbols(&vec!["A", "A"], GameMode::FreePlay, 0);
    session.flip_tile(0);
    assert!(matches!(session.flip_tile(1), SessionAction::Report(_)));
    assert_eq!(session.flip_tile(0), SessionAction::Continue);
    assert_eq!(session.flip_tile(1), SessionAction::Continue);
    assert_eq!(session.tick(), SessionAction::Continue);
    assert_eq!(session.time_finished(), SessionAction::Continue);
    assert_eq!(session.flip_count(), 2);
    assert!(session.finished());
}

#[test]
fn countdown_ends_in_a_loss_at_zero() {
    let mut session = abab(GameMode::Timed, 3);
    session.flip_tile(0);
    assert_eq!(session.tick(), SessionAction::Continue);
    assert_eq!(session.time(), 2);
    assert_eq!(session.tick(), SessionAction::Continue);
    assert_eq!(session.time(), 1);
    assert!(!session.finished());
    assert_eq!(
        session.tick(),
        SessionAction::Report(Outcome { won: false, time: 0, flip_count: 1 })
    );
    assert_eq!(session.time(), 0);
    assert!(session.finished());
}

#[test]
fn countdown_stays_at_zero() {
    let mut session = abab(GameMode::Timed, 1);
    assert!(matches!(session.tick(), SessionAction::Report(_)));
    assert_eq!(session.tick(), SessionAction::Continue);
    assert_eq!(session.tick(), SessionAction::Continue);
    assert_eq!(session.time(), 0);
    assert!(session.finished());
}

#[test]
fn countdown_of_a_new_timed_game_takes_twenty_ticks_per_side() {
    let mut session = GameSession::new(2, GameMode::Timed).unwrap();
    assert_eq!(session.time(), 40);
    for left in (1..40).rev() {
        assert_eq!(session.tick(), SessionAction::Continue);
        assert_eq!(session.time(), left);
    }
    assert_eq!(
        session.tick(),
        SessionAction::Report(Outcome { won: false, time: 0, flip_count: 0 })
    );
    assert_eq!(session.time(), 0);
    assert!(session.finished());
}

#[test]
fn countdown_goes_on_after_a_win_without_a_report() {
    let mut session = GameSession::from_symbols(&vec!["A", "A"], GameMode::Timed, 2);
    session.flip_tile(0);
    session.flip_tile(1);
    assert_eq!(session.tick(), SessionAction::Continue);
    assert_eq!(session.tick(), SessionAction::Continue);
    assert_eq!(session.time(), 0);
}

#[test]
fn free_play_counts_up_and_never_loses() {
    let mut session = abab(GameMode::FreePlay, 0);
    for elapsed in 1..=1000 {
        assert_eq!(session.tick(), SessionAction::Continue);
        assert_eq!(session.time(), elapsed);
    }
    assert!(!session.finished());
}

#[test]
fn free_play_clock_stops_at_its_largest_value() {
    let mut session = abab(GameMode::FreePlay, u64::MAX - 1);
    assert_eq!(session.tick(), SessionAction::Continue);
    assert_eq!(session.time(), u64::MAX);
    assert_eq!(session.tick(), SessionAction::Continue);
    assert_eq!(session.time(), u64::MAX);
    assert!(!session.finished());
}

#[test]
fn time_finished_ends_a_timed_game_with_a_loss() {
    let mut session = abab(GameMode::Timed, 40);
    session.flip_tile(0);
    session.flip_tile(1);
    assert_eq!(
        session.time_finished(),
        SessionAction::Report(Outcome { won: false, time: 0, flip_count: 2 })
    );
    assert_eq!(session.time(), 0);
    assert!(session.finished());
    assert_eq!(session.time_finished(), SessionAction::Continue);
}

#[test]
fn time_finished_leaves_a_won_game_alone() {
    let mut session = GameSession::from_symbols(&vec!["A", "A"], GameMode::Timed, 40);
    session.tick();
    session.flip_tile(0);
    session.flip_tile(1);
    assert_eq!(session.time_finished(), SessionAction::Continue);
    assert_eq!(session.time(), 39);
    assert!(session.finished());
}

#[test]
fn time_finished_leaves_free_play_alone() {
    let mut session = abab(GameMode::FreePlay, 0);
    session.tick();
    assert_eq!(session.time_finished(), SessionAction::Continue);
    assert_eq!(session.time(), 1);
    assert!(!session.finished());
}

#[test]
fn go_back_to_menu_ends_without_a_report() {
    let mut session = abab(GameMode::Timed, 40);
    session.flip_tile(0);
    assert_eq!(session.go_back_to_menu(), SessionAction::BackToMenu);
    assert!(session.finished());
    assert_eq!(session.time(), 40);
    assert_eq!(session.flip_count(), 1);
    assert_eq!(flags(&session), vec![WAITING, HIDDEN, HIDDEN, HIDDEN]);
}

#[test]
fn go_back_to_menu_twice_is_the_same() {
    let mut session = abab(GameMode::FreePlay, 7);
    assert_eq!(session.go_back_to_menu(), SessionAction::BackToMenu);
    assert_eq!(session.go_back_to_menu(), SessionAction::BackToMenu);
    assert!(session.finished());
    assert_eq!(session.time(), 7);
}

#[test]
fn nothing_is_reported_after_leaving() {
    let mut session = GameSession::from_symbols(&vec!["A", "A"], GameMode::Timed, 1);
    session.go_back_to_menu();
    session.flip_tile(0);
    assert_eq!(session.flip_tile(1), SessionAction::Continue);
    assert_eq!(session.tick(), SessionAction::Continue);
    assert_eq!(session.time_finished(), SessionAction::Continue);
}

#[test]
fn event_does_what_the_named_operations_do() {
    let mut by_event = abab(GameMode::Timed, 2);
    let mut by_name = abab(GameMode::Timed, 2);
    assert_eq!(by_event.event(SessionEvent::FlipTile(0)), by_name.flip_tile(0));
    assert_eq!(by_event.event(SessionEvent::FlipTile(2)), by_name.flip_tile(2));
    assert_eq!(by_event.event(SessionEvent::Tick), by_name.tick());
    assert_eq!(by_event.event(SessionEvent::TimeFinished), by_name.time_finished());
    assert_eq!(by_event.event(SessionEvent::GoBackToMenu), by_name.go_back_to_menu());
    assert_eq!(by_event.tiles(), by_name.tiles());
    assert_eq!(by_event.time(), by_name.time());
    assert_eq!(by_event.flip_count(), by_name.flip_count());
    assert_eq!(by_event.finished(), by_name.finished());
    assert_eq!(by_event.time(), 0);
    assert_eq!(by_event.flip_count(), 2);
}

#[test]
fn event_reports_the_loss_of_the_last_tick() {
    let mut session = abab(GameMode::Timed, 1);
    assert_eq!(
        session.event(SessionEvent::Tick),
        SessionAction::Report(Outcome { won: false, time: 0, flip_count: 0 })
    );
}

#[test]
fn to_event_names_the_page_to_show() {
    assert_eq!(SessionAction::Continue.to_event(), None);
    assert_eq!(
        SessionAction::BackToMenu.to_event(),
        Some(GameEvent::ChangePage(Page::StartScreen))
    );
    assert_eq!(
        SessionAction::Report(Outcome { won: true, time: 12, flip_count: 30 }).to_event(),
        Some(GameEvent::ChangePage(Page::Finished(true, 12, 30)))
    );
    assert_eq!(
        SessionAction::Report(Outcome { won: false, time: 0, flip_count: 4 }).to_event(),
        Some(GameEvent::ChangePage(Page::Finished(false, 0, 4)))
    );
}

#[test]
fn empty_layout_gives_an_empty_grid() {
    let mut session = GameSession::from_symbols(&Vec::new(), GameMode::FreePlay, 0);
    assert!(session.tiles().is_empty());
    assert_eq!(session.tick(), SessionAction::Continue);
    assert!(!session.finished());
}

fn emoji_pool() -> Vec<&'static str> {
    emojis::iter().skip(84).map(|emoji| emoji.as_str()).collect()
}

fn sorted_symbols(session: &GameSession) -> Vec<&'static str> {
    let mut symbols: Vec<&'static str> = session.tiles().iter().map(|t| t.symbol).collect();
    symbols.sort();
    symbols
}

#[test]
fn new_grid_holds_each_symbol_twice() {
    for difficulty in vec![2, 4, 6, 8, 10] {
        let session = GameSession::new(difficulty, GameMode::FreePlay).unwrap();
        assert_eq!(session.tiles().len(), difficulty * difficulty);
        for tile in session.tiles() {
            let same = session.tiles().iter().filter(|other| other.symbol == tile.symbol).count();
            assert_eq!(same, 2);
        }
    }
}

#[test]
fn new_grid_lies_face_down() {
    let session = GameSession::new(4, GameMode::FreePlay).unwrap();
    assert!(session.tiles().iter().all(|t| !t.visible && !t.solved));
    assert_eq!(session.flip_count(), 0);
    assert!(!session.finished());
}

#[test]
fn new_grid_bears_the_emojis_after_the_first_eighty_four() {
    let pool = emoji_pool();
    let session = GameSession::new(4, GameMode::FreePlay).unwrap();
    let mut expected: Vec<&'static str> = Vec::new();
    for symbol in pool.iter().take(8) {
        expected.push(*symbol);
        expected.push(*symbol);
    }
    expected.sort();
    assert_eq!(sorted_symbols(&session), expected);
    let first = emojis::iter().next().unwrap().as_str();
    assert!(session.tiles().iter().all(|t| t.symbol != first));
}

#[test]
fn new_grid_is_shuffled() {
    let pool = emoji_pool();
    let mut ordered: Vec<&'static str> = Vec::new();
    for symbol in pool.iter().take(50) {
        ordered.push(*symbol);
        ordered.push(*symbol);
    }
    let session = GameSession::new(10, GameMode::FreePlay).unwrap();
    let symbols: Vec<&'static str> = session.tiles().iter().map(|t| t.symbol).collect();
    assert_ne!(symbols, ordered);
    let again = GameSession::new(10, GameMode::FreePlay).unwrap();
    let symbols_again: Vec<&'static str> = again.tiles().iter().map(|t| t.symbol).collect();
    assert_ne!(symbols, symbols_again);
}

#[test]
fn new_sets_the_clock_by_the_mode() {
    assert_eq!(GameSession::new(2, GameMode::Timed).unwrap().time(), 40);
    assert_eq!(GameSession::new(4, GameMode::Timed).unwrap().time(), 80);
    assert_eq!(GameSession::new(10, GameMode::Timed).unwrap().time(), 200);
    assert_eq!(GameSession::new(10, GameMode::FreePlay).unwrap().time(), 0);
    assert_eq!(GameSession::new(4, GameMode::Timed).unwrap().game_mode(), GameMode::Timed);
}

#[test]
fn new_rejects_a_side_of_zero_or_an_odd_side() {
    for difficulty in vec![0, 1, 3, 5, 9, 11, usize::MAX] {
        assert_eq!(
            GameSession::new(difficulty, GameMode::FreePlay).err(),
            Some(ConfigError::InvalidDifficulty)
        );
    }
}

#[test]
fn new_rejects_a_grid_that_needs_more_emojis_than_there_are() {
    let available = emoji_pool().len();
    let mut difficulty = 2;
    while difficulty * difficulty / 2 <= available {
        difficulty += 2;
    }
    assert_eq!(
        GameSession::new(difficulty, GameMode::Timed).err(),
        Some(ConfigError::InsufficientSymbols)
    );
    assert!(GameSession::new(difficulty - 2, GameMode::Timed).is_ok());
    assert_eq!(
        GameSession::new(usize::MAX - 1, GameMode::Timed).err(),
        Some(ConfigError::InsufficientSymbols)
    );
}

#[test]
fn with_pool_uses_the_head_of_the_pool() {
    let pool = vec!["a", "b", "c", "d", "e", "f", "g", "h", "i", "j"];
    let session = GameSession::with_pool(4, GameMode::Timed, &pool).unwrap();
    assert_eq!(
        sorted_symbols(&session),
        vec!["a", "a", "b", "b", "c", "c", "d", "d", "e", "e", "f", "f", "g", "g", "h", "h"]
    );
    assert_eq!(session.time(), 80);
    assert!(session.tiles().iter().all(|t| !t.visible && !t.solved));
}

#[test]
fn with_pool_reports_each_error() {
    let pool = vec!["a", "b", "a"];
    assert_eq!(
        GameSession::with_pool(3, GameMode::Timed, &pool).err(),
        Some(ConfigError::InvalidDifficulty)
    );
    assert_eq!(
        GameSession::with_pool(4, GameMode::Timed, &pool).err(),
        Some(ConfigError::InsufficientSymbols)
    );
    assert_eq!(
        GameSession::with_pool(2, GameMode::Timed, &vec!["a", "a", "b"]).err(),
        Some(ConfigError::DuplicateSymbol)
    );
    assert!(GameSession::with_pool(2, GameMode::Timed, &pool).is_ok());
}

#[test]
fn new_game_can_be_won() {
    let mut session = GameSession::new(4, GameMode::FreePlay).unwrap();
    let symbols: Vec<&'static str> = session.tiles().iter().map(|t| t.symbol).collect();
    let mut last = SessionAction::Continue;
    for first in 0..symbols.len() {
        if session.tiles()[first].solved {
            continue;
        }
        let second =
            (0..symbols.len()).find(|&j| j != first && symbols[j] == symbols[first]).unwrap();
        assert_eq!(session.flip_tile(first), SessionAction::Continue);
        last = session.flip_tile(second);
    }
    assert_eq!(last, SessionAction::Report(Outcome { won: true, time: 0, flip_count: 16 }));
    assert!(session.finished());
    assert!(session.tiles().iter().all(|t| t.visible && t.solved));
}
