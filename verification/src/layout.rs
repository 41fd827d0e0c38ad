//! The layout of a new grid: which symbols lie on it, each of them twice.

use vstd::prelude::*;
use vstd::seq_lib::{
    to_multiset_build, to_multiset_contains, to_multiset_insert, to_multiset_len,
    to_multiset_remove,
};
use crate::tile::same_symbol;

verus! {

/// Why no grid can be laid out.
#[derive(Clone, Copy, Debug, PartialEq, Eq, Structural)]
pub enum ConfigError {
    /// The side of the grid is zero or odd, so its tiles cannot be split into
    /// pairs.
    InvalidDifficulty,
    /// The pool holds fewer symbols than the grid has pairs, or the grid has
    /// more tiles than can be addressed.
    InsufficientSymbols,
    /// Two of the symbols that the grid would use are the same.
    DuplicateSymbol,
}

/// The texts of a sequence of symbols.
pub open spec fn symbol_texts(symbols: Seq<&'static str>) -> Seq<Seq<char>> {
    Seq::new(symbols.len(), |i: int| symbols[i]@)
}

/// No text occurs twice.
pub open spec fn distinct(texts: Seq<Seq<char>>) -> bool {
    forall|i: int, j: int| 0 <= i < j < texts.len() ==> texts[i] != texts[j]
}

/// How often `text` occurs among `texts`.
pub open spec fn symbol_count(texts: Seq<Seq<char>>, text: Seq<char>) -> nat {
    texts.to_multiset().count(text)
}

/// Every text that occurs, occurs exactly twice.
pub open spec fn paired(texts: Seq<Seq<char>>) -> bool {
    forall|i: int| 0 <= i < texts.len() ==> symbol_count(texts, #[trigger] texts[i]) == 2
}

/// How many pairs of tiles a grid of side `difficulty` holds.
pub open spec fn pair_count(difficulty: nat) -> nat {
    difficulty * difficulty / 2
}

/// Why a grid of side `difficulty` cannot be laid out from a pool with these
/// texts, or `None` if it can.
pub open spec fn config_error(difficulty: nat, pool: Seq<Seq<char>>) -> Option<ConfigError> {
    if difficulty == 0 || difficulty % 2 == 1 {
        Some(ConfigError::InvalidDifficulty)
    } else if difficulty * difficulty > usize::MAX || pool.len() < pair_count(difficulty) {
        Some(ConfigError::InsufficientSymbols)
    } else if !distinct(pool.take(pair_count(difficulty) as int)) {
        Some(ConfigError::DuplicateSymbol)
    } else {
        None
    }
}

/// The first `pairs` symbols of the pool, each twice in a row.
pub open spec fn paired_layout(pool: Seq<&'static str>, pairs: nat) -> Seq<&'static str> {
    Seq::new(2 * pairs, |i: int| pool[i / 2])
}

/// The first `pairs` texts of the pool, each twice in a row.
pub open spec fn paired_texts(pool: Seq<Seq<char>>, pairs: nat) -> Seq<Seq<char>> {
    Seq::new(2 * pairs, |i: int| pool[i / 2])
}

/// Whether the first `count` symbols of the pool, or all of them if it holds
/// fewer, differ from one another.
pub fn first_distinct(pool: &Vec<&'static str>, count: usize) -> (ok: bool)
    ensures
        ok == distinct(symbol_texts(pool@).take(vstd::math::min(count as int, pool.len() as int))),
{
    let used = if count < pool.len() {
        count
    } else {
        pool.len()
    };
    let ghost texts = symbol_texts(pool@).take(used as int);
    let mut j: usize = 0;
    while j < used
        invariant
            j <= used <= pool.len(),
            used == vstd::math::min(count as int, pool.len() as int),
            texts == symbol_texts(pool@).take(used as int),
            forall|a: int, b: int| 0 <= a < b < j ==> texts[a] != texts[b],
        decreases used - j,
    {
        let mut i: usize = 0;
        while i < j
            invariant
                i <= j < used <= pool.len(),
                used == vstd::math::min(count as int, pool.len() as int),
                texts == symbol_texts(pool@).take(used as int),
                forall|a: int| 0 <= a < i ==> texts[a] != texts[j as int],
            decreases j - i,
        {
            if same_symbol(pool[i], pool[j]) {
                assert(texts[i as int] == texts[j as int]);
                return false;
            }
            i += 1;
        }
        j += 1;
    }
    true
}

/// Lays out a grid of side `difficulty` before it is shuffled: the first
/// symbols of the pool, as many as the grid has pairs, each twice in a row.
pub fn pair_symbols(difficulty: usize, pool: &Vec<&'static str>) -> (layout: Result<
    Vec<&'static str>,
    ConfigError,
>)
    ensures
        match layout {
            Ok(symbols) => config_error(difficulty as nat, symbol_texts(pool@)) is None
                && symbols@ == paired_layout(pool@, pair_count(difficulty as nat)),
            Err(error) => config_error(difficulty as nat, symbol_texts(pool@)) == Some(error),
        },
{
    if difficulty == 0 || difficulty % 2 == 1 {
        return Err(ConfigError::InvalidDifficulty);
    }
    let pairs = match difficulty.checked_mul(difficulty) {
        Some(tiles) => tiles / 2,
        None => {
            return Err(ConfigError::InsufficientSymbols);
        },
    };
    if pool.len() < pairs {
        return Err(ConfigError::InsufficientSymbols);
    }
    if !first_distinct(pool, pairs) {
        return Err(ConfigError::DuplicateSymbol);
    }
    let mut symbols: Vec<&'static str> = Vec::new();
    let mut i: usize = 0;
    while i < pairs
        invariant
            i <= pairs <= pool.len(),
            symbols@ == paired_layout(pool@, i as nat),
        decreases pairs - i,
    {
        symbols.push(pool[i]);
        symbols.push(pool[i]);
        i += 1;
        assert(symbols@ =~= paired_layout(pool@, i as nat));
    }
    Ok(symbols)
}

/// A grid of even side splits into pairs with no tile left over.
pub proof fn lemma_even_side(difficulty: nat)
    requires
        difficulty % 2 == 0,
    ensures
        2 * pair_count(difficulty) == difficulty * difficulty,
{
    let half = difficulty / 2;
    assert(difficulty * difficulty == 2 * (half * difficulty)) by (nonlinear_arith)
        requires
            difficulty == 2 * half,
    ;
}

/// A layout of pairs of different symbols holds each of its symbols twice
/// and no other symbol.
pub proof fn lemma_layout_counts(pool: Seq<&'static str>, pairs: nat, text: Seq<char>)
    requires
        pairs <= pool.len(),
        distinct(symbol_texts(pool).take(pairs as int)),
    ensures
        symbol_count(symbol_texts(paired_layout(pool, pairs)), text) == if exists|m: int|
            0 <= m < pairs && #[trigger] symbol_texts(pool)[m] == text {
            2nat
        } else {
            0nat
        },
    decreases pairs,
{
    let texts = symbol_texts(paired_layout(pool, pairs));
    if pairs == 0 {
        assert(texts =~= Seq::<Seq<char>>::empty());
        to_multiset_len(texts);
        assert(texts.to_multiset().count(text) == 0) by {
            to_multiset_contains(texts, text);
        }
    } else {
        let fewer = (pairs - 1) as nat;
        let front = symbol_texts(paired_layout(pool, fewer));
        let newest = symbol_texts(pool)[fewer as int];
        assert(symbol_texts(pool).take(fewer as int) =~= symbol_texts(pool).take(
            pairs as int,
        ).take(fewer as int));
        lemma_layout_counts(pool, fewer, text);
        assert(texts =~= front.push(newest).push(newest));
        to_multiset_build(front, newest);
        to_multiset_build(front.push(newest), newest);
        if newest == text {
            assert forall|m: int| 0 <= m < fewer implies #[trigger] symbol_texts(pool)[m]
                != text by {
                assert(symbol_texts(pool).take(pairs as int)[m] != symbol_texts(pool).take(
                    pairs as int,
                )[fewer as int]);
            }
        } else {
            if exists|m: int| 0 <= m < pairs && #[trigger] symbol_texts(pool)[m] == text {
                let m = choose|m: int| 0 <= m < pairs && #[trigger] symbol_texts(pool)[m] == text;
                assert(0 <= m < fewer && symbol_texts(pool)[m] == text);
            }
        }
    }
}

/// A layout of pairs of different symbols is paired.
pub proof fn lemma_layout_paired(pool: Seq<&'static str>, pairs: nat)
    requires
        pairs <= pool.len(),
        distinct(symbol_texts(pool).take(pairs as int)),
    ensures
        paired(symbol_texts(paired_layout(pool, pairs))),
{
    let texts = symbol_texts(paired_layout(pool, pairs));
    assert forall|i: int| 0 <= i < texts.len() implies symbol_count(texts, #[trigger] texts[i])
        == 2 by {
        lemma_layout_counts(pool, pairs, texts[i]);
        assert(symbol_texts(pool)[i / 2] == texts[i]);
    }
}

/// Symbols in another order have their texts in another order.
pub proof fn lemma_texts_permuted(a: Seq<&'static str>, b: Seq<&'static str>)
    requires
        a.to_multiset() == b.to_multiset(),
    ensures
        symbol_texts(a).to_multiset() == symbol_texts(b).to_multiset(),
    decreases a.len(),
{
    to_multiset_len(a);
    to_multiset_len(b);
    if a.len() == 0 {
        assert(symbol_texts(a) =~= symbol_texts(b));
    } else {
        let x = a.last();
        to_multiset_contains(a, x);
        to_multiset_contains(b, x);
        assert(a[a.len() - 1] == x);
        let j = choose|j: int| 0 <= j < b.len() && b[j] == x;
        let a2 = a.drop_last();
        let b2 = b.remove(j);
        assert(a2 =~= a.remove(a.len() - 1));
        to_multiset_remove(a, a.len() - 1);
        to_multiset_remove(b, j);
        lemma_texts_permuted(a2, b2);
        assert(symbol_texts(a) =~= symbol_texts(a2).push(x@));
        to_multiset_build(symbol_texts(a2), x@);
        assert(symbol_texts(b) =~= symbol_texts(b2).insert(j, x@));
        to_multiset_insert(symbol_texts(b2), j, x@);
    }
}

/// Texts that are paired in one order are paired in every order.
pub proof fn lemma_paired_permuted(a: Seq<Seq<char>>, b: Seq<Seq<char>>)
    requires
        a.to_multiset() == b.to_multiset(),
        paired(a),
    ensures
        paired(b),
{
    assert forall|i: int| 0 <= i < b.len() implies symbol_count(b, #[trigger] b[i]) == 2 by {
        to_multiset_contains(b, b[i]);
        to_multiset_contains(a, b[i]);
        let j = choose|j: int| 0 <= j < a.len() && a[j] == b[i];
        assert(symbol_count(a, a[j]) == 2);
    }
}

} // verus!
