//! The grid as a sequence of tiles in row-major order, and the rule by which
//! a flip changes it.

use vstd::prelude::*;
use crate::tile::{same_symbol, Tile};

verus! {

/// What holds of the grid between two flips: a matched tile lies face up, and
/// at most one unmatched tile does.
pub open spec fn tiles_wf(tiles: Seq<Tile>) -> bool {
    &&& forall|i: int| 0 <= i < tiles.len() ==> (#[trigger] tiles[i]).wf()
    &&& forall|i: int, j: int|
        0 <= i < tiles.len() && 0 <= j < tiles.len() && (#[trigger] tiles[i]).pending() && (
        #[trigger] tiles[j]).pending() ==> i == j
}

/// The texts of the symbols on the grid, tile by tile.
pub open spec fn tile_symbols(tiles: Seq<Tile>) -> Seq<Seq<char>> {
    Seq::new(tiles.len(), |i: int| tiles[i].symbol@)
}

/// Every tile of the grid has been matched.
pub open spec fn all_solved(tiles: Seq<Tile>) -> bool {
    forall|i: int| 0 <= i < tiles.len() ==> (#[trigger] tiles[i]).solved
}

/// Some tile other than `idx` lies face up, unmatched, and bears the symbol of
/// tile `idx`.
pub open spec fn has_match(tiles: Seq<Tile>, idx: int) -> bool {
    exists|j: int|
        0 <= j < tiles.len() && j != idx && (#[trigger] tiles[j]).pending() && tiles[j].same_symbol(
            tiles[idx],
        )
}

/// Tile `k` after tile `idx` has been flipped.
///
/// The flipped tile turns face up, and is matched if a waiting tile bears its
/// symbol. A waiting tile is matched if it bears the symbol of the flipped
/// tile and turns face down if it does not. Every other tile stays as it is.
pub open spec fn flipped_tile(tiles: Seq<Tile>, idx: int, k: int) -> Tile {
    let tile = tiles[k];
    if k == idx {
        Tile { symbol: tile.symbol, visible: true, solved: tile.solved || has_match(tiles, idx) }
    } else if tile.pending() {
        if tile.same_symbol(tiles[idx]) {
            Tile { symbol: tile.symbol, visible: true, solved: true }
        } else {
            Tile { symbol: tile.symbol, visible: false, solved: false }
        }
    } else {
        tile
    }
}

/// The grid after tile `idx` has been flipped.
pub open spec fn flipped(tiles: Seq<Tile>, idx: int) -> Seq<Tile> {
    Seq::new(tiles.len(), |k: int| flipped_tile(tiles, idx, k))
}

/// A flip keeps the grid well formed.
pub proof fn lemma_flipped_wf(tiles: Seq<Tile>, idx: int)
    requires
        tiles_wf(tiles),
        0 <= idx < tiles.len(),
    ensures
        tiles_wf(flipped(tiles, idx)),
{
    let after = flipped(tiles, idx);
    assert forall|i: int| 0 <= i < after.len() implies (#[trigger] after[i]).wf() by {
        assert(tiles[i].wf());
    }
    assert forall|i: int, j: int|
        0 <= i < after.len() && 0 <= j < after.len() && (#[trigger] after[i]).pending() && (
        #[trigger] after[j]).pending() implies i == j by {
        assert(tiles[i].wf() && tiles[j].wf());
    }
}

/// The place in the grid of the tile in row `row` and column `col`, counting
/// row by row.
pub fn tile_index(difficulty: usize, row: usize, col: usize) -> (idx: usize)
    requires
        row < difficulty,
        col < difficulty,
        difficulty * difficulty <= usize::MAX,
    ensures
        idx == row * difficulty + col,
        idx < difficulty * difficulty,
{
    assert(row * difficulty + col < difficulty * difficulty) by (nonlinear_arith)
        requires
            row < difficulty,
            col < difficulty,
    ;
    assert(0 <= row * difficulty) by (nonlinear_arith);
    row * difficulty + col
}

/// The first tile other than `idx` that lies face up and unmatched.
pub fn pending_other(tiles: &Vec<Tile>, idx: usize) -> (found: Option<usize>)
    ensures
        match found {
            Some(j) => j < tiles.len() && j != idx && tiles@[j as int].pending() && forall|k: int|
                0 <= k < j && k != idx ==> !(#[trigger] tiles@[k]).pending(),
            None => forall|k: int|
                0 <= k < tiles.len() && k != idx ==> !(#[trigger] tiles@[k]).pending(),
        },
{
    let mut j: usize = 0;
    while j < tiles.len()
        invariant
            j <= tiles.len(),
            forall|k: int| 0 <= k < j && k != idx ==> !(#[trigger] tiles@[k]).pending(),
        decreases tiles.len() - j,
    {
        if j != idx && tiles[j].visible && !tiles[j].solved {
            return Some(j);
        }
        j += 1;
    }
    None
}

/// Whether every tile of the grid has been matched.
pub fn is_all_solved(tiles: &Vec<Tile>) -> (solved: bool)
    ensures
        solved == all_solved(tiles@),
{
    let mut i: usize = 0;
    while i < tiles.len()
        invariant
            i <= tiles.len(),
            forall|k: int| 0 <= k < i ==> (#[trigger] tiles@[k]).solved,
        decreases tiles.len() - i,
    {
        if !tiles[i].solved {
            return false;
        }
        i += 1;
    }
    true
}

/// Flips tile `idx`: turns it face up and settles it against the tile that
/// waits, if one does.
pub fn flip(tiles: &mut Vec<Tile>, idx: usize)
    requires
        tiles_wf(old(tiles)@),
        idx < old(tiles).len(),
    ensures
        final(tiles)@ == flipped(old(tiles)@, idx as int),
{
    let ghost before = tiles@;
    let clicked = tiles[idx];
    tiles.set(idx, Tile { symbol: clicked.symbol, visible: true, solved: clicked.solved });
    match pending_other(tiles, idx) {
        Some(j) => {
            let waiting = tiles[j];
            assert(before[j as int].pending());
            if same_symbol(waiting.symbol, clicked.symbol) {
                tiles.set(j, Tile { symbol: waiting.symbol, visible: true, solved: true });
                tiles.set(idx, Tile { symbol: clicked.symbol, visible: true, solved: true });
            } else {
                tiles.set(j, Tile { symbol: waiting.symbol, visible: false, solved: false });
            }
        },
        None => {
            assert forall|k: int| 0 <= k < before.len() && k != idx implies !(
            #[trigger] before[k]).pending() by {
                assert(tiles@[k] == before[k]);
            }
        },
    }
    assert(tiles@ =~= flipped(before, idx as int));
}

} // verus!
