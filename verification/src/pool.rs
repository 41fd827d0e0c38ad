//! The symbols that tiles bear and the order in which a new grid holds them:
//! the two places where the library relies on code that it has not verified.

use rand::seq::SliceRandom;
use rand::thread_rng;
use vstd::prelude::*;
use crate::layout::symbol_texts;

verus! {

/// How many emojis at the head of the table no grid uses.
pub const FIRST_SYMBOL: usize = 84;

/// The texts of the emojis that the table of the `emojis` crate holds after
/// its first `skip` entries, in the order of the table. The table is part of
/// that crate, so this is the same sequence wherever the library runs.
pub uninterp spec fn emoji_table(skip: nat) -> Seq<Seq<char>>;

/// Collects the text, as `Emoji::as_str` gives it, of every emoji that
/// `emojis::iter` yields after the first `skip`, in that order.
///
/// Not verified. The contract claims only that the texts are those of the
/// table, which depend on nothing but `skip`. It says nothing of their number
/// or of their being different from one another: callers check both.
#[verifier::external_body]
pub(crate) fn emoji_symbols(skip: usize) -> (pool: Vec<&'static str>)
    ensures
        symbol_texts(pool@) == emoji_table(skip as nat),
{
    emojis::iter().skip(skip).map(|emoji| emoji.as_str()).collect()
}

/// Puts the symbols in a random order with `SliceRandom::shuffle` of the
/// `rand` crate, on the generator that `rand::thread_rng` returns.
///
/// Not verified. The contract claims that shuffling only reorders: the vector
/// holds the same symbols afterwards, each as often as before. Which order
/// comes out is left open. `thread_rng` fails if the system cannot seed it.
#[verifier::external_body]
pub(crate) fn shuffle(symbols: &mut Vec<&'static str>)
    ensures
        final(symbols)@.to_multiset() == old(symbols)@.to_multiset(),
{
    symbols.shuffle(&mut thread_rng());
}

} // verus!
