//! The glyph ramp: escape counts turned into characters, from light to heavy.
use vstd::prelude::*;

verus! {

/// Number of glyphs on the ramp; their weights run from 0 to `GLYPH_COUNT - 1`.
pub const GLYPH_COUNT: usize = 10;

/// Where threshold `k` lies, in thousandths of the budget.
pub open spec fn per_mille(k: int) -> int {
    if k == 0 {
        5
    } else if k == 1 {
        10
    } else if k == 2 {
        50
    } else if k == 3 {
        100
    } else if k == 4 {
        200
    } else if k == 5 {
        250
    } else if k == 6 {
        300
    } else if k == 7 {
        400
    } else {
        500
    }
}

/// The count from which glyph `k + 1` is drawn: its share of the budget, but
/// never below 10 (or below the budget itself, where that is smaller).
pub open spec fn threshold(k: int, budget: int) -> int {
    let least = if budget < 10 { budget } else { 10 };
    let share = budget * per_mille(k) / 1000;
    if share > least { share } else { least }
}

/// How many of the first `k` thresholds the count `n` has reached.
pub open spec fn thresholds_reached(n: int, budget: int, k: nat) -> nat
    decreases k,
{
    if k == 0 {
        0
    } else {
        thresholds_reached(n, budget, (k - 1) as nat) + if threshold(k - 1, budget) <= n {
            1nat
        } else {
            0nat
        }
    }
}

/// The weight of the glyph for count `n`: 0 is the lightest, 9 the heaviest.
pub open spec fn glyph_weight(n: int, budget: int) -> nat {
    thresholds_reached(n, budget, (GLYPH_COUNT - 1) as nat)
}

/// The ramp itself, lightest first.
pub open spec fn ramp(w: int) -> char {
    if w <= 0 {
        ' '
    } else if w == 1 {
        '.'
    } else if w == 2 {
        ':'
    } else if w == 3 {
        '-'
    } else if w == 4 {
        '='
    } else if w == 5 {
        '+'
    } else if w == 6 {
        '*'
    } else if w == 7 {
        '%'
    } else if w == 8 {
        '#'
    } else {
        '@'
    }
}

fn per_mille_of(k: usize) -> (r: u64)
    ensures
        r == per_mille(k as int),
{
    match k {
        0 => 5,
        1 => 10,
        2 => 50,
        3 => 100,
        4 => 200,
        5 => 250,
        6 => 300,
        7 => 400,
        _ => 500,
    }
}

fn threshold_of(k: usize, budget: u32) -> (r: u64)
    ensures
        r == threshold(k as int, budget as int),
{
    let least: u64 = if budget < 10 { budget as u64 } else { 10 };
    let share = budget as u64 * per_mille_of(k) / 1000;
    if share > least { share } else { least }
}

/// The weight of the glyph that stands for `n` iterations out of `budget`.
pub fn weight(n: u32, budget: u32) -> (w: usize)
    ensures
        w == glyph_weight(n as int, budget as int),
        w < GLYPH_COUNT,
{
    let mut w: usize = 0;
    let mut k: usize = 0;
    while k < GLYPH_COUNT - 1
        invariant
            k <= GLYPH_COUNT - 1,
            w == thresholds_reached(n as int, budget as int, k as nat),
            w <= k,
        decreases GLYPH_COUNT - 1 - k,
    {
        if threshold_of(k, budget) <= n as u64 {
            w = w + 1;
        }
        k = k + 1;
    }
    w
}

/// The character drawn for a cell whose orbit took `n` of `max_iterations` steps.
pub fn glyph(n: u32, max_iterations: u32) -> (c: char)
    ensures
        c == ramp(glyph_weight(n as int, max_iterations as int) as int),
{
    match weight(n, max_iterations) {
        0 => ' ',
        1 => '.',
        2 => ':',
        3 => '-',
        4 => '=',
        5 => '+',
        6 => '*',
        7 => '%',
        8 => '#',
        _ => '@',
    }
}

proof fn lemma_reached_monotone(n1: int, n2: int, budget: int, k: nat)
    requires
        n1 <= n2,
    ensures
        thresholds_reached(n1, budget, k) <= thresholds_reached(n2, budget, k),
    decreases k,
{
    if k > 0 {
        lemma_reached_monotone(n1, n2, budget, (k - 1) as nat);
    }
}

/// The ramp is ordered: a count never gets a lighter glyph than a smaller count.
pub proof fn lemma_glyph_monotone(n1: int, n2: int, budget: int)
    requires
        n1 <= n2,
    ensures
        glyph_weight(n1, budget) <= glyph_weight(n2, budget),
{
    lemma_reached_monotone(n1, n2, budget, (GLYPH_COUNT - 1) as nat);
}

proof fn lemma_thresholds_between(budget: int, k: nat)
    requires
        budget >= 1,
    ensures
        thresholds_reached(0, budget, k) == 0,
        thresholds_reached(budget, budget, k) == k,
    decreases k,
{
    if k > 0 {
        lemma_thresholds_between(budget, (k - 1) as nat);
        let j = k - 1;
        assert(per_mille(j) <= 1000);
        assert(budget * per_mille(j) <= budget * 1000) by (nonlinear_arith)
            requires
                budget >= 1,
                per_mille(j) <= 1000,
        ;
        assert(budget * per_mille(j) >= 0) by (nonlinear_arith)
            requires
                budget >= 1,
                per_mille(j) >= 0,
        ;
        assert(budget * per_mille(j) / 1000 <= budget);
    }
}

/// No step taken gives the lightest glyph; a whole budget gives the heaviest.
pub proof fn lemma_glyph_ends(budget: int)
    requires
        budget >= 1,
    ensures
        glyph_weight(0, budget) == 0,
        glyph_weight(budget, budget) == GLYPH_COUNT - 1,
        ramp(glyph_weight(0, budget) as int) == ' ',
        ramp(glyph_weight(budget, budget) as int) == '@',
{
    lemma_thresholds_between(budget, (GLYPH_COUNT - 1) as nat);
}

} // verus!
