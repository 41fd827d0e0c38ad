//! What holds of every play-through, proved over the mathematical state of a
//! session and over whole sequences of events.

use vstd::prelude::*;
use crate::data::GameMode;
use crate::grid::{all_solved, flipped, has_match, lemma_flipped_wf, tile_symbols};
use crate::session::{Outcome, SessionAction, SessionEvent, SessionState};

verus! {

/// The state that `state` is in after the events of `events`, in order.
pub open spec fn run(state: SessionState, events: Seq<SessionEvent>) -> SessionState
    decreases events.len(),
{
    if events.len() == 0 {
        state
    } else {
        run(state, events.drop_last()).step(events.last())
    }
}

/// Every event of `events` is one that the state in which it arrives accepts.
pub open spec fn accepted(state: SessionState, events: Seq<SessionEvent>) -> bool
    decreases events.len(),
{
    if events.len() == 0 {
        true
    } else {
        accepted(state, events.drop_last()) && run(state, events.drop_last()).accepts(
            events.last(),
        )
    }
}

/// What event `i` of `events` asks of the caller.
pub open spec fn action_at(
    state: SessionState,
    events: Seq<SessionEvent>,
    i: int,
) -> SessionAction {
    run(state, events.take(i)).action(events[i])
}

/// A run up to and including event `i` is the run up to event `i`, then that
/// event; and a run that is accepted is accepted up to every event.
pub proof fn lemma_run_prefix(state: SessionState, events: Seq<SessionEvent>, i: int)
    requires
        0 <= i < events.len(),
    ensures
        run(state, events.take(i + 1)) == run(state, events.take(i)).step(events[i]),
        accepted(state, events) ==> accepted(state, events.take(i)) && run(
            state,
            events.take(i),
        ).accepts(events[i]),
    decreases events.len(),
{
    assert(events.take(i + 1).drop_last() =~= events.take(i));
    if i + 1 == events.len() {
        assert(events.take(i + 1) =~= events);
    } else {
        let front = events.drop_last();
        assert(front.take(i) =~= events.take(i));
        assert(front.take(i + 1) =~= events.take(i + 1));
        lemma_run_prefix(state, front, i);
    }
}

/// Running two sequences of events one after the other is running their
/// concatenation.
pub proof fn lemma_run_append(
    state: SessionState,
    first: Seq<SessionEvent>,
    second: Seq<SessionEvent>,
)
    ensures
        run(state, first + second) == run(run(state, first), second),
    decreases second.len(),
{
    if second.len() == 0 {
        assert(first + second =~= first);
    } else {
        assert((first + second).drop_last() =~= first + second.drop_last());
        lemma_run_append(state, first, second.drop_last());
    }
}

/// A play-through starts well formed, with every tile face down.
pub proof fn lemma_start_wf(symbols: Seq<&'static str>, game_mode: GameMode, time: u64)
    ensures
        SessionState::start(symbols, game_mode, time).wf(),
        forall|i: int|
            0 <= i < symbols.len() ==> !(#[trigger] SessionState::start(
                symbols,
                game_mode,
                time,
            ).tiles[i]).visible,
{
}

/// Every event that a well-formed state accepts leaves it well formed.
pub proof fn lemma_step_wf(state: SessionState, event: SessionEvent)
    requires
        state.wf(),
        state.accepts(event),
    ensures
        state.step(event).wf(),
{
    match event {
        SessionEvent::FlipTile(idx) => {
            lemma_flipped_wf(state.tiles, idx as int);
        },
        _ => {},
    }
}

/// Every state that a play-through reaches is well formed.
pub proof fn lemma_run_wf(state: SessionState, events: Seq<SessionEvent>)
    requires
        state.wf(),
        accepted(state, events),
    ensures
        run(state, events).wf(),
    decreases events.len(),
{
    if events.len() > 0 {
        lemma_run_wf(state, events.drop_last());
        lemma_step_wf(run(state, events.drop_last()), events.last());
    }
}

/// In every state that a play-through reaches, a matched tile lies face up.
pub proof fn lemma_solved_is_visible(state: SessionState, events: Seq<SessionEvent>, i: int)
    requires
        state.wf(),
        accepted(state, events),
        0 <= i < state.tiles.len(),
    ensures
        run(state, events).tiles.len() == state.tiles.len(),
        run(state, events).tiles[i].solved ==> run(state, events).tiles[i].visible,
{
    lemma_run_wf(state, events);
    lemma_run_keeps_symbols(state, events);
    assert(run(state, events).tiles[i].wf());
}

/// In every state that a play-through reaches, at most one unmatched tile
/// lies face up.
pub proof fn lemma_one_pending(state: SessionState, events: Seq<SessionEvent>, i: int, j: int)
    requires
        state.wf(),
        accepted(state, events),
        0 <= i < state.tiles.len(),
        0 <= j < state.tiles.len(),
        run(state, events).tiles[i].pending(),
        run(state, events).tiles[j].pending(),
    ensures
        i == j,
{
    lemma_run_wf(state, events);
    lemma_run_keeps_symbols(state, events);
}

/// A matched tile stays matched and face up whatever comes.
pub proof fn lemma_solved_is_permanent(state: SessionState, events: Seq<SessionEvent>, i: int)
    requires
        0 <= i < state.tiles.len(),
        state.tiles[i].solved,
        state.tiles[i].visible,
    ensures
        run(state, events).tiles[i].solved,
        run(state, events).tiles[i].visible,
    decreases events.len(),
{
    if events.len() > 0 {
        lemma_solved_is_permanent(state, events.drop_last(), i);
        lemma_run_keeps_symbols(state, events.drop_last());
    }
}

/// No event moves a tile or changes its symbol, and none changes the mode.
pub proof fn lemma_run_keeps_symbols(state: SessionState, events: Seq<SessionEvent>)
    ensures
        run(state, events).game_mode == state.game_mode,
        run(state, events).tiles.len() == state.tiles.len(),
        forall|i: int|
            0 <= i < state.tiles.len() ==> (#[trigger] run(state, events).tiles[i]).symbol
                == state.tiles[i].symbol,
    decreases events.len(),
{
    if events.len() > 0 {
        lemma_run_keeps_symbols(state, events.drop_last());
    }
}

/// Every symbol lies on exactly two tiles for as long as the play-through
/// lasts, if it did so at first.
pub proof fn lemma_run_keeps_pairs(state: SessionState, events: Seq<SessionEvent>)
    requires
        state.paired(),
    ensures
        run(state, events).paired(),
{
    lemma_run_keeps_symbols(state, events);
    assert(tile_symbols(run(state, events).tiles) =~= tile_symbols(state.tiles));
}

/// A flip adds one to the counter when the tile lay face down and nothing
/// when it lay face up.
pub proof fn lemma_flip_counts(state: SessionState, idx: usize)
    requires
        state.accepts(SessionEvent::FlipTile(idx)),
    ensures
        !state.tiles[idx as int].visible ==> state.step(SessionEvent::FlipTile(idx)).flip_count
            == state.flip_count + 1,
        state.tiles[idx as int].visible ==> state.step(SessionEvent::FlipTile(idx)).flip_count
            == state.flip_count,
{
}

/// How many flips of `events` hit a tile that lay face down when they came.
pub open spec fn counted_flips(state: SessionState, events: Seq<SessionEvent>) -> nat
    decreases events.len(),
{
    if events.len() == 0 {
        0
    } else {
        let before = run(state, events.drop_last());
        let counts = match events.last() {
            SessionEvent::FlipTile(idx) => !before.tiles[idx as int].visible,
            _ => false,
        };
        counted_flips(state, events.drop_last()) + if counts {
            1nat
        } else {
            0nat
        }
    }
}

/// The counter holds the number of flips that hit a face-down tile.
pub proof fn lemma_flip_count_is_total(state: SessionState, events: Seq<SessionEvent>)
    requires
        accepted(state, events),
    ensures
        run(state, events).flip_count == state.flip_count + counted_flips(state, events),
    decreases events.len(),
{
    if events.len() > 0 {
        lemma_flip_count_is_total(state, events.drop_last());
    }
}

/// Flipping tile `b` while tile `a` alone waits: when both bear the same
/// symbol, both are matched and lie face up; when they do not, `a` turns face
/// down and `b` waits in its place.
pub proof fn lemma_match_symmetry(state: SessionState, a: int, b: int)
    requires
        state.wf(),
        0 <= a < state.tiles.len(),
        0 <= b < state.tiles.len(),
        a != b,
        state.tiles[a].pending(),
        !state.tiles[b].solved,
    ensures
        state.tiles[a].same_symbol(state.tiles[b]) ==> {
            &&& state.flip(b).tiles[a].solved
            &&& state.flip(b).tiles[a].visible
            &&& state.flip(b).tiles[b].solved
            &&& state.flip(b).tiles[b].visible
        },
        !state.tiles[a].same_symbol(state.tiles[b]) ==> {
            &&& !state.flip(b).tiles[a].solved
            &&& !state.flip(b).tiles[a].visible
            &&& !state.flip(b).tiles[b].solved
            &&& state.flip(b).tiles[b].visible
        },
{
    assert(state.tiles[b].wf());
    if !state.tiles[a].same_symbol(state.tiles[b]) {
        assert forall|j: int|
            0 <= j < state.tiles.len() && j != b && (#[trigger] state.tiles[j]).pending() implies j
            == a by {}
    }
}

/// Flipping tile `a` and then tile `b`, both face down and no tile waiting:
/// when they bear the same symbol, both end matched and face up; when they
/// do not, `a` ends face down again and `b` waits. Both flips count.
pub proof fn lemma_flip_pair(state: SessionState, a: int, b: int)
    requires
        state.wf(),
        0 <= a < state.tiles.len(),
        0 <= b < state.tiles.len(),
        a != b,
        !state.tiles[a].visible,
        !state.tiles[b].visible,
        forall|k: int| 0 <= k < state.tiles.len() ==> !(#[trigger] state.tiles[k]).pending(),
        state.flip_count + 2 <= usize::MAX,
    ensures
        state.flip(a).flip(b).flip_count == state.flip_count + 2,
        state.tiles[a].same_symbol(state.tiles[b]) ==> {
            &&& state.flip(a).flip(b).tiles[a].solved
            &&& state.flip(a).flip(b).tiles[a].visible
            &&& state.flip(a).flip(b).tiles[b].solved
            &&& state.flip(a).flip(b).tiles[b].visible
        },
        !state.tiles[a].same_symbol(state.tiles[b]) ==> {
            &&& !state.flip(a).flip(b).tiles[a].solved
            &&& !state.flip(a).flip(b).tiles[a].visible
            &&& !state.flip(a).flip(b).tiles[b].solved
            &&& state.flip(a).flip(b).tiles[b].visible
        },
{
    assert(state.tiles[a].wf() && state.tiles[b].wf());
    lemma_flipped_wf(state.tiles, a);
    assert(!has_match(state.tiles, a));
    lemma_match_symmetry(state.flip(a), a, b);
}

/// A play-through is won by the flip that leaves every tile matched, and by
/// nothing else: an event of a play-through that is still on reports a win
/// exactly when it is a flip after which all tiles are matched, and the
/// report then holds the clock and the counter of that moment.
pub proof fn lemma_win_iff_all_solved(state: SessionState, event: SessionEvent)
    requires
        state.accepts(event),
        !state.finished,
    ensures
        (exists|outcome: Outcome|
            state.action(event) == SessionAction::Report(outcome) && outcome.won) <==> (event
            is FlipTile && all_solved(state.step(event).tiles)),
        event is FlipTile && all_solved(state.step(event).tiles) ==> state.step(event).finished
            && state.action(event) == SessionAction::Report(
            Outcome {
                won: true,
                time: state.step(event).time,
                flip_count: state.step(event).flip_count,
            },
        ),
{
    match event {
        SessionEvent::FlipTile(idx) => {
            if all_solved(flipped(state.tiles, idx as int)) {
                let outcome = Outcome {
                    won: true,
                    time: state.time,
                    flip_count: state.flips_after(idx as int),
                };
                assert(state.action(event) == SessionAction::Report(outcome) && outcome.won);
            }
        },
        _ => {},
    }
}

/// A play-through that is over reports nothing more.
pub proof fn lemma_finished_is_silent(state: SessionState, event: SessionEvent)
    requires
        state.finished,
    ensures
        state.step(event).finished,
        !(state.action(event) is Report),
{
}

/// Once over, a play-through stays over.
pub proof fn lemma_run_stays_finished(state: SessionState, events: Seq<SessionEvent>)
    requires
        state.finished,
    ensures
        run(state, events).finished,
    decreases events.len(),
{
    if events.len() > 0 {
        lemma_run_stays_finished(state, events.drop_last());
        lemma_finished_is_silent(run(state, events.drop_last()), events.last());
    }
}

/// The event that reports an outcome ends the play-through.
pub proof fn lemma_report_finishes(state: SessionState, event: SessionEvent)
    requires
        state.action(event) is Report,
    ensures
        state.step(event).finished,
{
}

/// A play-through reports at most one outcome.
pub proof fn lemma_report_at_most_once(
    state: SessionState,
    events: Seq<SessionEvent>,
    i: int,
    j: int,
)
    requires
        0 <= i < j < events.len(),
        action_at(state, events, i) is Report,
    ensures
        !(action_at(state, events, j) is Report),
{
    lemma_run_prefix(state, events, i);
    lemma_report_finishes(run(state, events.take(i)), events[i]);
    let reported = run(state, events.take(i + 1));
    let rest = events.take(j).skip(i + 1);
    lemma_run_append(state, events.take(i + 1), rest);
    assert(events.take(i + 1) + rest =~= events.take(j));
    lemma_run_stays_finished(reported, rest);
    lemma_finished_is_silent(run(state, events.take(j)), events[j]);
}

/// The report of a win comes with the flip that leaves every tile matched. It
/// holds the clock of that moment and the counter of that moment, which has
/// grown by the number of flips, up to and with that one, that hit a tile
/// which lay face down.
pub proof fn lemma_win_report(
    state: SessionState,
    events: Seq<SessionEvent>,
    i: int,
    outcome: Outcome,
)
    requires
        accepted(state, events),
        0 <= i < events.len(),
        action_at(state, events, i) == SessionAction::Report(outcome),
        outcome.won,
    ensures
        events[i] is FlipTile,
        all_solved(run(state, events.take(i + 1)).tiles),
        run(state, events.take(i + 1)).finished,
        outcome.flip_count == state.flip_count + counted_flips(state, events.take(i + 1)),
        outcome.time == run(state, events.take(i)).time,
{
    lemma_run_prefix(state, events, i);
    let before = run(state, events.take(i));
    assert(!before.finished) by {
        if before.finished {
            lemma_finished_is_silent(before, events[i]);
        }
    }
    lemma_win_iff_all_solved(before, events[i]);
    assert(events.take(i + 1).drop_last() =~= events.take(i));
    lemma_flip_count_is_total(state, events.take(i + 1));
}

/// In free play no event reports a loss, however many come.
pub proof fn lemma_free_play_never_lost(state: SessionState, events: Seq<SessionEvent>, i: int)
    requires
        state.game_mode == GameMode::FreePlay,
        0 <= i < events.len(),
    ensures
        action_at(state, events, i) matches SessionAction::Report(outcome) ==> outcome.won,
{
    lemma_run_keeps_symbols(state, events.take(i));
}

/// A sequence of `n` ticks.
pub open spec fn ticks(n: nat) -> Seq<SessionEvent> {
    Seq::new(n, |i: int| SessionEvent::Tick)
}

/// In free play the clock counts the ticks, up to the largest value it can
/// hold, and the play-through goes on.
pub proof fn lemma_free_play_clock(state: SessionState, n: nat)
    requires
        state.game_mode == GameMode::FreePlay,
    ensures
        run(state, ticks(n)).time == if state.time + n <= u64::MAX {
            state.time + n
        } else {
            u64::MAX as int
        },
        run(state, ticks(n)).finished == state.finished,
    decreases n,
{
    if n > 0 {
        assert(ticks(n).drop_last() =~= ticks((n - 1) as nat));
        lemma_free_play_clock(state, (n - 1) as nat);
        lemma_run_keeps_symbols(state, ticks((n - 1) as nat));
    }
}

/// How many events of `events` are ticks.
pub open spec fn tick_count(events: Seq<SessionEvent>) -> nat
    decreases events.len(),
{
    if events.len() == 0 {
        0
    } else {
        tick_count(events.drop_last()) + if events.last() is Tick {
            1nat
        } else {
            0nat
        }
    }
}

/// The player only plays: every event is a tick or a flip.
pub open spec fn only_play(events: Seq<SessionEvent>) -> bool {
    forall|i: int| 0 <= i < events.len() ==> (#[trigger] events[i]) is Tick || events[i] is FlipTile
}

/// No event of `events` reports a win.
pub open spec fn no_win(state: SessionState, events: Seq<SessionEvent>) -> bool {
    forall|i: int|
        0 <= i < events.len() ==> !(#[trigger] action_at(state, events, i)
            matches SessionAction::Report(outcome) && outcome.won)
}

/// What holds of a run holds of the run without its last event: it is made
/// of ticks and flips, and reports no win.
pub proof fn lemma_front_plays(state: SessionState, events: Seq<SessionEvent>)
    requires
        events.len() > 0,
        only_play(events),
        no_win(state, events),
    ensures
        only_play(events.drop_last()),
        no_win(state, events.drop_last()),
        events.last() is Tick || events.last() is FlipTile,
        action_at(state, events, events.len() - 1) == run(state, events.drop_last()).action(
            events.last(),
        ),
{
    let front = events.drop_last();
    assert forall|i: int| 0 <= i < front.len() implies !(#[trigger] action_at(state, front, i)
        matches SessionAction::Report(outcome) && outcome.won) by {
        assert(front.take(i) =~= events.take(i));
        assert(action_at(state, front, i) == action_at(state, events, i));
    }
    assert forall|i: int| 0 <= i < front.len() implies (#[trigger] front[i]) is Tick
        || front[i] is FlipTile by {
        assert(front[i] == events[i]);
    }
    assert(events.take(events.len() - 1) =~= front);
    assert(events[events.len() - 1] is Tick || events[events.len() - 1] is FlipTile);
}

/// While the player plays a timed game without winning, and fewer ticks have
/// come than the clock held at first, the clock has gone down by the number
/// of ticks and the play-through is still on.
pub proof fn lemma_countdown_runs(state: SessionState, events: Seq<SessionEvent>)
    requires
        state.game_mode == GameMode::Timed,
        !state.finished,
        accepted(state, events),
        only_play(events),
        no_win(state, events),
        tick_count(events) < state.time,
    ensures
        run(state, events).time == state.time - tick_count(events),
        run(state, events).game_mode == GameMode::Timed,
        !run(state, events).finished,
    decreases events.len(),
{
    if events.len() > 0 {
        lemma_front_plays(state, events);
        lemma_countdown_runs(state, events.drop_last());
    }
}

/// The countdown of a timed game ends in a loss: when the player plays
/// without winning, the tick that makes as many ticks as the clock held
/// seconds at first takes the clock to zero, ends the play-through, and
/// reports a loss at zero seconds with the flips counted so far.
pub proof fn lemma_countdown_expires(state: SessionState, events: Seq<SessionEvent>)
    requires
        state.game_mode == GameMode::Timed,
        !state.finished,
        state.time > 0,
        accepted(state, events),
        only_play(events),
        no_win(state, events),
        tick_count(events) == state.time,
        events.len() > 0,
        events.last() is Tick,
    ensures
        run(state, events).time == 0,
        run(state, events).finished,
        action_at(state, events, events.len() - 1) == SessionAction::Report(
            Outcome { won: false, time: 0, flip_count: run(state, events).flip_count },
        ),
{
    lemma_front_plays(state, events);
    lemma_countdown_runs(state, events.drop_last());
}

/// A sequence of ticks holds as many ticks as it is long, is accepted by
/// every state, and reports no win.
pub proof fn lemma_ticks_only(state: SessionState, n: nat)
    ensures
        tick_count(ticks(n)) == n,
        accepted(state, ticks(n)),
        only_play(ticks(n)),
        no_win(state, ticks(n)),
    decreases n,
{
    if n > 0 {
        assert(ticks(n).drop_last() =~= ticks((n - 1) as nat));
        lemma_ticks_only(state, (n - 1) as nat);
    }
}

/// A sequence of ticks counts no flip.
pub proof fn lemma_ticks_count_no_flip(state: SessionState, n: nat)
    ensures
        counted_flips(state, ticks(n)) == 0,
    decreases n,
{
    if n > 0 {
        assert(ticks(n).drop_last() =~= ticks((n - 1) as nat));
        lemma_ticks_count_no_flip(state, (n - 1) as nat);
    }
}

/// A timed play-through of a grid of side `difficulty`, left alone, is lost
/// after `20 * difficulty` ticks and not before: the last of them takes the
/// clock to zero and reports the loss, and every earlier one lets the
/// play-through go on.
pub proof fn lemma_timed_countdown(state: SessionState, difficulty: nat, i: int)
    requires
        state.game_mode == GameMode::Timed,
        !state.finished,
        difficulty > 0,
        state.time == 20 * difficulty,
        0 <= i < 20 * difficulty,
    ensures
        run(state, ticks(20 * difficulty)).time == 0,
        run(state, ticks(20 * difficulty)).finished,
        action_at(state, ticks(20 * difficulty), i) == if i == 20 * difficulty - 1 {
            SessionAction::Report(Outcome { won: false, time: 0, flip_count: state.flip_count })
        } else {
            SessionAction::Continue
        },
{
    let n = 20 * difficulty;
    lemma_ticks_only(state, n);
    lemma_countdown_expires(state, ticks(n));
    lemma_flip_count_is_total(state, ticks(n));
    lemma_ticks_count_no_flip(state, n);
    if i < n - 1 {
        assert(ticks(n).take(i) =~= ticks(i as nat));
        lemma_ticks_only(state, i as nat);
        lemma_countdown_runs(state, ticks(i as nat));
    }
}

/// Once at zero, the clock of a timed game stays there.
pub proof fn lemma_countdown_stays_at_zero(state: SessionState, n: nat)
    requires
        state.game_mode == GameMode::Timed,
        state.time == 0,
    ensures
        run(state, ticks(n)).time == 0,
    decreases n,
{
    if n > 0 {
        assert(ticks(n).drop_last() =~= ticks((n - 1) as nat));
        lemma_countdown_stays_at_zero(state, (n - 1) as nat);
        lemma_run_keeps_symbols(state, ticks((n - 1) as nat));
    }
}

} // verus!
