//! The counter that tells a pending release whether anything has happened to
//! the window since it was scheduled.

use vstd::prelude::*;

verus! {

/// The counter `steps` advances after it stood at `generation`. It wraps
/// around at the width of the machine word.
pub open spec fn advanced(generation: usize, steps: nat) -> usize {
    ((generation + steps) % (usize::MAX + 1)) as usize
}

/// The next generation, wrapping around after the largest one.
pub fn advance(generation: usize) -> (next: usize)
    ensures
        next == if generation == usize::MAX {
            0
        } else {
            generation + 1
        },
        next == advanced(generation, 1),
{
    proof {
        law_one_advance(generation);
    }
    generation.wrapping_add(1)
}

/// One advance adds one, and the largest generation is followed by 0.
pub proof fn law_one_advance(generation: usize)
    ensures
        advanced(generation, 1) == if generation == usize::MAX {
            0
        } else {
            generation + 1
        },
{
    let turn: int = usize::MAX + 1;
    if generation < usize::MAX {
        vstd::arithmetic::div_mod::lemma_small_mod((generation + 1) as nat, turn as nat);
    } else {
        vstd::arithmetic::div_mod::lemma_mod_self_0(turn);
    }
}

/// Whether that many advances bring the counter back to where it stood: none at
/// all, or whole turns of it.
pub open spec fn comes_round(steps: nat) -> bool {
    steps as int % (usize::MAX + 1) == 0
}

/// A generation is told from every later one, except after whole turns of the
/// counter.
pub proof fn law_overtaken_generation_differs(generation: usize, steps: nat)
    ensures
        advanced(generation, steps) == generation <==> comes_round(steps),
{
    let turn: int = usize::MAX + 1;
    let rest = steps as int % turn;
    vstd::arithmetic::div_mod::lemma_add_mod_noop_right(generation as int, steps as int, turn);
    assert((generation + rest) % turn == (generation + steps) % turn);
    if generation + rest < turn {
        vstd::arithmetic::div_mod::lemma_small_mod((generation + rest) as nat, turn as nat);
    } else {
        vstd::arithmetic::div_mod::lemma_mod_sub_multiples_vanish(generation + rest, turn);
        vstd::arithmetic::div_mod::lemma_small_mod((generation + rest - turn) as nat, turn as nat);
    }
}

/// Fewer advances than a whole turn never come round.
pub proof fn law_short_stretch_does_not_come_round(steps: nat)
    requires
        0 < steps <= usize::MAX,
    ensures
        !comes_round(steps),
{
    vstd::arithmetic::div_mod::lemma_small_mod(steps, (usize::MAX + 1) as nat);
}

/// Advancing in two stretches is advancing by their sum.
pub proof fn law_advances_add_up(generation: usize, first: nat, second: nat)
    ensures
        advanced(generation, 0) == generation,
        advanced(advanced(generation, first), second) == advanced(generation, first + second),
{
    let turn: int = usize::MAX + 1;
    vstd::arithmetic::div_mod::lemma_small_mod(generation as nat, turn as nat);
    vstd::arithmetic::div_mod::lemma_add_mod_noop_right(second as int, generation + first, turn);
    assert(second + (generation + first) == generation + (first + second));
}

} // verus!
