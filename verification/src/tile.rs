//! One cell of the grid.

use vstd::prelude::*;
use vstd::utf8::{decode_utf8, encode_utf8, encode_utf8_decode_utf8};

verus! {

/// A cell of the grid: the symbol it bears and how it lies.
#[derive(Clone, Copy, Debug, PartialEq, Eq)]
pub struct Tile {
    /// The symbol on the face of the tile; its partner bears the same one.
    pub symbol: &'static str,
    /// Whether the tile lies face up.
    pub visible: bool,
    /// Whether the tile has been matched with its partner.
    pub solved: bool,
}

impl Tile {
    /// The face-down, unmatched tile that bears `symbol`.
    pub open spec fn fresh(symbol: &'static str) -> Tile {
        Tile { symbol, visible: false, solved: false }
    }

    /// A matched tile lies face up.
    pub open spec fn wf(self) -> bool {
        self.solved ==> self.visible
    }

    /// The tile lies face up and waits for its partner.
    pub open spec fn pending(self) -> bool {
        self.visible && !self.solved
    }

    /// Both tiles bear the same symbol.
    pub open spec fn same_symbol(self, other: Tile) -> bool {
        self.symbol@ == other.symbol@
    }

    /// A face-down, unmatched tile that bears `symbol`.
    pub fn new(symbol: &'static str) -> (tile: Tile)
        ensures
            tile == Tile::fresh(symbol),
    {
        Tile { symbol, visible: false, solved: false }
    }
}

/// Whether two symbols are the same text, decided byte by byte on their
/// UTF-8 encodings.
pub fn same_symbol(a: &str, b: &str) -> (same: bool)
    ensures
        same == (a@ == b@),
{
    let x = a.as_bytes();
    let y = b.as_bytes();
    proof {
        encode_utf8_decode_utf8(a@);
        encode_utf8_decode_utf8(b@);
    }
    if x.len() != y.len() {
        return false;
    }
    let mut i: usize = 0;
    while i < x.len()
        invariant
            i <= x.len(),
            x.len() == y.len(),
            forall|k: int| 0 <= k < i ==> x@[k] == y@[k],
            x@ == encode_utf8(a@),
            y@ == encode_utf8(b@),
            decode_utf8(encode_utf8(a@)) == a@,
            decode_utf8(encode_utf8(b@)) == b@,
        decreases x.len() - i,
    {
        if x[i] != y[i] {
            return false;
        }
        i += 1;
    }
    assert(x@ =~= y@);
    true
}

} // verus!
