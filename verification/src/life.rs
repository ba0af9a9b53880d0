//! Grid bookkeeping of the Game of Life harnesses: reseeding and reading a `cells` grid.

use vstd::prelude::*;

verus! {

/// One step of the 64-bit linear congruential generator the reseed uses (wrapping).
pub open spec fn lcg_next(s: u64) -> u64 {
    vstd::wrapping::u64_specs::wrapping_add(
        vstd::wrapping::u64_specs::wrapping_mul(s, 6364136223846793005u64),
        1442695040888963407u64,
    )
}

/// The generator's state after `k` steps from the fixed seed.
pub open spec fn lcg_state(k: nat) -> u64
    decreases k,
{
    if k == 0 {
        0x9e37_79b9_7f4a_7c15u64
    } else {
        lcg_next(lcg_state((k - 1) as nat))
    }
}

/// The cell the `k`-th draw lights in a grid of `len` cells: the state's top bits modulo `len`.
pub open spec fn reseed_pick(k: nat, len: nat) -> int {
    (((lcg_state(k + 1) >> 33u64) as nat) % len) as int
}

/// Cell `i` is lit by one of the first `rounds` draws.
pub open spec fn reseed_hits(i: int, len: nat, rounds: nat) -> bool {
    exists|k: nat| k < rounds && #[trigger] reseed_pick(k, len) == i
}

/// The number of draws of a reseed.
pub open spec fn reseed_rounds() -> nat {
    1000
}

/// The grid a reseed leaves: 255 at each cell one of the draws lit, 0 elsewhere.
pub open spec fn reseeded(len: nat) -> Seq<u8> {
    Seq::new(len, |i: int| if reseed_hits(i, len, reseed_rounds()) { 255u8 } else { 0u8 })
}

/// Clears the grid and lights a fixed pseudo-random pattern: 1000 draws of the generator,
/// each lighting (255) the cell its top bits pick. The result depends on the length alone.
pub fn reseed(cells: &mut [u8])
    requires
        old(cells)@.len() > 0,
    ensures
        final(cells)@ == reseeded(old(cells)@.len() as nat),
{
    let len = cells.len();
    let mut i: usize = 0;
    while i < len
        invariant
            len == cells@.len(),
            i <= len,
            forall|j: int| 0 <= j < i ==> cells@[j] == 0u8,
        decreases len - i,
    {
        cells[i] = 0;
        i = i + 1;
    }
    let mut seed: u64 = 0x9e37_79b9_7f4a_7c15;
    let mut k: usize = 0;
    while k < 1000
        invariant
            len == cells@.len(),
            len > 0,
            k <= 1000,
            seed == lcg_state(k as nat),
            forall|j: int|
                0 <= j < len ==> cells@[j] == if reseed_hits(j, len as nat, k as nat) {
                    255u8
                } else {
                    0u8
                },
        decreases 1000 - k,
    {
        seed = seed.wrapping_mul(6364136223846793005).wrapping_add(1442695040888963407);
        assert(seed >> 33u64 < 0x8000_0000u64) by (bit_vector);
        let idx = ((seed >> 33) as usize) % len;
        let ghost before = cells@;
        cells[idx] = 255;
        proof {
            assert(seed == lcg_state((k + 1) as nat));
            assert(reseed_pick(k as nat, len as nat) == idx as int);
            assert forall|j: int| 0 <= j < len implies cells@[j] == if reseed_hits(
                j,
                len as nat,
                (k + 1) as nat,
            ) {
                255u8
            } else {
                0u8
            } by {
                if j == idx as int {
                    assert(reseed_hits(j, len as nat, (k + 1) as nat));
                } else {
                    assert(cells@[j] == before[j]);
                    if reseed_hits(j, len as nat, (k + 1) as nat) {
                        let w = choose|w: nat| w < k + 1 && #[trigger] reseed_pick(w, len as nat) == j;
                        assert(w != k);
                        assert(reseed_hits(j, len as nat, k as nat));
                    }
                    if reseed_hits(j, len as nat, k as nat) {
                        let w = choose|w: nat| w < k && #[trigger] reseed_pick(w, len as nat) == j;
                        assert(reseed_hits(j, len as nat, (k + 1) as nat));
                    }
                }
            }
        }
        k = k + 1;
    }
    assert(cells@ =~= reseeded(len as nat));
}

/// The number of live (non-zero) cells of a grid.
pub open spec fn alive_count(cells: Seq<u8>) -> nat
    decreases cells.len(),
{
    if cells.len() == 0 {
        0
    } else {
        alive_count(cells.drop_last()) + if cells.last() != 0 {
            1nat
        } else {
            0nat
        }
    }
}

proof fn lemma_alive_count_bounded(cells: Seq<u8>)
    ensures
        alive_count(cells) <= cells.len(),
    decreases cells.len(),
{
    if cells.len() > 0 {
        lemma_alive_count_bounded(cells.drop_last());
    }
}

/// The live cells of two grids laid end to end are those of each: an empty grid has none,
/// and one cell counts once exactly when it is non-zero.
pub proof fn law_alive_count_adds(a: Seq<u8>, b: Seq<u8>, c: u8)
    ensures
        alive_count(Seq::<u8>::empty()) == 0,
        alive_count(seq![c]) == (if c != 0 { 1nat } else { 0nat }),
        alive_count(a + b) == alive_count(a) + alive_count(b),
    decreases b.len(),
{
    assert(seq![c].drop_last() =~= Seq::<u8>::empty());
    if b.len() == 0 {
        assert(a + b =~= a);
    } else {
        law_alive_count_adds(a, b.drop_last(), c);
        assert((a + b).drop_last() =~= a + b.drop_last());
        assert((a + b).last() == b.last());
    }
}

/// Counts the live cells of a grid.
pub fn count_alive(cells: &[u8]) -> (n: usize)
    ensures
        n == alive_count(cells@),
{
    let mut n: usize = 0;
    let mut i: usize = 0;
    while i < cells.len()
        invariant
            i <= cells@.len(),
            n == alive_count(cells@.take(i as int)),
            n <= i,
        decreases cells.len() - i,
    {
        proof {
            assert(cells@.take(i + 1).drop_last() =~= cells@.take(i as int));
            lemma_alive_count_bounded(cells@.take(i as int));
        }
        if cells[i] != 0 {
            n = n + 1;
        }
        i = i + 1;
    }
    assert(cells@.take(cells@.len() as int) =~= cells@);
    n
}

/// Whether the renderer draws cell `i` as live: it exists and is non-zero.
pub fn cell_alive(cells: &[u8], i: usize) -> (b: bool)
    ensures
        b == (i < cells@.len() && cells@[i as int] != 0),
{
    i < cells.len() && cells[i] != 0
}

/// A history of live-cell counts shows an evolving grid: it holds two different counts and
/// some count above zero.
pub open spec fn evolves(history: Seq<usize>) -> bool {
    &&& exists|i: int, j: int|
        0 <= i < history.len() && 0 <= j < history.len() && #[trigger] history[i]
            != #[trigger] history[j]
    &&& exists|i: int| 0 <= i < history.len() && #[trigger] history[i] > 0
}

/// The verdict on a history is that two of its counts, at any positions, differ and that
/// some count, at any position, is above zero.
pub proof fn law_evolves_is_two_counts_and_a_live_one(history: Seq<usize>)
    ensures
        evolves(history) == ((exists|i: int, j: int|
            0 <= i < history.len() && 0 <= j < history.len() && #[trigger] history[i]
                != #[trigger] history[j]) && (exists|i: int|
            0 <= i < history.len() && #[trigger] history[i] > 0)),
        forall|k: int|
            0 <= k < history.len() && #[trigger] history[k] > 0 && (exists|i: int, j: int|
                0 <= i < history.len() && 0 <= j < history.len() && #[trigger] history[i]
                    != #[trigger] history[j]) ==> evolves(history),
{
}

/// Judges a history of live-cell counts (more than one distinct count, and one above zero).
pub fn history_evolves(history: &Vec<usize>) -> (b: bool)
    ensures
        b == evolves(history@),
        b == ((exists|i: int, j: int|
            0 <= i < history@.len() && 0 <= j < history@.len() && #[trigger] history@[i]
                != #[trigger] history@[j]) && (exists|i: int|
            0 <= i < history@.len() && #[trigger] history@[i] > 0)),
{
    proof {
        law_evolves_is_two_counts_and_a_live_one(history@);
    }
    if history.len() == 0 {
        return false;
    }
    let first = history[0];
    let mut differs = false;
    let mut positive = false;
    let mut i: usize = 0;
    while i < history.len()
        invariant
            i <= history@.len(),
            history@.len() > 0,
            first == history@[0],
            differs == exists|j: int| 0 <= j < i && #[trigger] history@[j] != first,
            positive == exists|j: int| 0 <= j < i && #[trigger] history@[j] > 0,
        decreases history.len() - i,
    {
        if history[i] != first {
            differs = true;
        }
        if history[i] > 0 {
            positive = true;
        }
        i = i + 1;
    }
    proof {
        if differs {
            let j = choose|j: int| 0 <= j < history@.len() && #[trigger] history@[j] != first;
            assert(history@[0] != history@[j]);
        }
        if !differs {
            assert forall|a: int, c: int|
                0 <= a < history@.len() && 0 <= c < history@.len() implies !(#[trigger] history@[a]
                != #[trigger] history@[c]) by {
                assert(history@[a] == first);
                assert(history@[c] == first);
            }
        }
    }
    differs && positive
}

/// A reseed always leaves a live cell, so a reseeded grid has something to evolve.
pub proof fn law_reseed_leaves_live_cell(len: nat)
    requires
        len > 0,
    ensures
        reseeded(len).len() == len,
        0 <= reseed_pick(0, len) < len,
        reseeded(len)[reseed_pick(0, len)] == 255u8,
        alive_count(reseeded(len)) > 0,
{
    let p = reseed_pick(0, len);
    assert(reseed_hits(p, len, reseed_rounds()));
    lemma_alive_count_positive(reseeded(len), p);
}

/// A grid with a live cell has a positive live count.
pub proof fn lemma_alive_count_positive(cells: Seq<u8>, i: int)
    requires
        0 <= i < cells.len(),
        cells[i] != 0,
    ensures
        alive_count(cells) > 0,
    decreases cells.len(),
{
    if i < cells.len() - 1 {
        lemma_alive_count_positive(cells.drop_last(), i);
    }
}

/// Every cell of a reseeded grid is either dead (0) or live (255).
pub proof fn law_reseed_cells_are_binary(len: nat, i: int)
    requires
        0 <= i < len,
    ensures
        reseeded(len)[i] == 0u8 || reseeded(len)[i] == 255u8,
{
}

} // verus!
