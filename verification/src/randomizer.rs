//! The piece sequencer: a linear congruential generator with a four-entry
//! trailing history that redraws recently seen pieces, capped at five
//! attempts.

use vstd::prelude::*;

use crate::piece::{spec_new_piece, Piece};
use crate::well::Block;

verus! {

/// Multiplier of the linear congruential generator.
pub const LCG_MUL: u32 = 0x41C64E6D;

/// Increment of the linear congruential generator.
pub const LCG_INC: u32 = 0x3039;

/// The seed after one generator step, modulo 2^32.
pub open spec fn lcg_next(seed: u32) -> u32 {
    vstd::wrapping::u32_specs::wrapping_add(
        vstd::wrapping::u32_specs::wrapping_mul(seed, LCG_MUL),
        LCG_INC,
    )
}

/// The 15-bit value a seed state yields.
pub open spec fn draw_of(seed: u32) -> u32 {
    (seed >> 10) & 0x7FFF
}

/// Whether a piece index sits in the four-entry history.
pub open spec fn hist_contains(h0: u8, h1: u8, h2: u8, h3: u8, r: u8) -> bool {
    r == h0 || r == h1 || r == h2 || r == h3
}

/// The bounded redraw: draw a candidate; if it is not in the history use it
/// at once; otherwise draw again and repeat, up to `k` rounds — the final
/// round's second draw is used unchecked.  Yields the chosen index and the
/// seed after the draws.
pub open spec fn spec_pick(seed: u32, h0: u8, h1: u8, h2: u8, h3: u8, k: nat) -> (u8, u32)
    decreases k,
{
    let s1 = lcg_next(seed);
    let r1 = (draw_of(s1) % 7) as u8;
    if !hist_contains(h0, h1, h2, h3, r1) {
        (r1, s1)
    } else {
        let s2 = lcg_next(s1);
        let r2 = (draw_of(s2) % 7) as u8;
        if k <= 1 {
            (r2, s2)
        } else {
            spec_pick(s2, h0, h1, h2, h3, (k - 1) as nat)
        }
    }
}

/// Whether the redraw runs out of rounds, so that the final unchecked draw
/// decides.
pub open spec fn pick_exhausted(seed: u32, h0: u8, h1: u8, h2: u8, h3: u8, k: nat) -> bool
    decreases k,
{
    let s1 = lcg_next(seed);
    let r1 = (draw_of(s1) % 7) as u8;
    if !hist_contains(h0, h1, h2, h3, r1) {
        false
    } else if k <= 1 {
        true
    } else {
        pick_exhausted(lcg_next(s1), h0, h1, h2, h3, (k - 1) as nat)
    }
}

/// The fixed index-to-colour table of the sequencer.
pub open spec fn block_of_index(r: u8) -> Block {
    if r == 0 {
        Block::Red
    } else if r == 1 {
        Block::Green
    } else if r == 2 {
        Block::Purple
    } else if r == 3 {
        Block::Blue
    } else if r == 4 {
        Block::Orange
    } else if r == 5 {
        Block::Yellow
    } else {
        Block::Cyan
    }
}

/// The piece sequencer.  The variant names the rule set it reproduces.
#[derive(Copy, Clone, Debug, PartialEq, Eq, Structural)]
pub enum Randomizer {
    TTATGM2P { seed: u32, h0: u8, h1: u8, h2: u8, h3: u8 },
}

/// The piece and successor state one draw yields.
pub open spec fn spec_next(rz: Randomizer) -> (Piece, Randomizer) {
    match rz {
        Randomizer::TTATGM2P { seed, h0, h1, h2, h3 } => {
            let pick = spec_pick(seed, h0, h1, h2, h3, 5);
            (
                spec_new_piece(block_of_index(pick.0)),
                Randomizer::TTATGM2P { seed: pick.1, h0: pick.0, h1: h0, h2: h1, h3: h2 },
            )
        },
    }
}

impl Randomizer {
    /// The fixed initial sequencer state.
    pub fn new() -> (r: Randomizer)
        ensures
            r == (Randomizer::TTATGM2P { seed: 10u32, h0: 1u8, h1: 1u8, h2: 2u8, h3: 2u8 }),
    {
        Randomizer::TTATGM2P { seed: 10, h0: 1, h1: 1, h2: 2, h3: 2 }
    }

    /// Draw the next piece and push its index onto the history.
    pub fn next_piece(&mut self) -> (p: Piece)
        ensures
            p == spec_next(*old(self)).0,
            *final(self) == spec_next(*old(self)).1,
            p.wf(),
    {
        let (seed0, h0, h1, h2, h3) = match *self {
            Randomizer::TTATGM2P { seed, h0, h1, h2, h3 } => (seed, h0, h1, h2, h3),
        };
        let (r, seed) = Self::pick(seed0, h0, h1, h2, h3, 5);
        *self = Randomizer::TTATGM2P { seed, h0: r, h1: h0, h2: h1, h3: h2 };
        let color = if r == 0 {
            Block::Red
        } else if r == 1 {
            Block::Green
        } else if r == 2 {
            Block::Purple
        } else if r == 3 {
            Block::Blue
        } else if r == 4 {
            Block::Orange
        } else if r == 5 {
            Block::Yellow
        } else {
            Block::Cyan
        };
        Piece::new(color)
    }

    /// One generator step.
    fn lcg_step(seed: u32) -> (s: u32)
        ensures
            s == lcg_next(seed),
    {
        seed.wrapping_mul(LCG_MUL).wrapping_add(LCG_INC)
    }

    /// The bounded redraw, as executable code.
    fn pick(seed: u32, h0: u8, h1: u8, h2: u8, h3: u8, k: u32) -> (res: (u8, u32))
        requires
            k >= 1,
        ensures
            res == spec_pick(seed, h0, h1, h2, h3, k as nat),
        decreases k,
    {
        let s1 = Self::lcg_step(seed);
        let draw1 = (s1 >> 10) & 0x7FFF;
        let r1 = (draw1 % 7) as u8;
        if !(r1 == h0 || r1 == h1 || r1 == h2 || r1 == h3) {
            (r1, s1)
        } else {
            let s2 = Self::lcg_step(s1);
            let draw2 = (s2 >> 10) & 0x7FFF;
            let r2 = (draw2 % 7) as u8;
            if k == 1 {
                (r2, s2)
            } else {
                Self::pick(s2, h0, h1, h2, h3, k - 1)
            }
        }
    }
}

/// The sequencer state after `k` draws.
pub open spec fn spec_run(rz: Randomizer, k: nat) -> Randomizer
    decreases k,
{
    if k == 0 {
        rz
    } else {
        spec_next(spec_run(rz, (k - 1) as nat)).1
    }
}

/// The piece index the `k`-th draw of a run yields, for `k >= 1`: the
/// freshest history entry of the state after `k` draws.
pub open spec fn spec_run_draw(rz: Randomizer, k: nat) -> u8 {
    spec_run(rz, k)->TTATGM2P_h0
}

/// After `k` draws the history holds the run's last four drawn indices, in
/// order, as far as the run reaches back.
proof fn lemma_run_history(rz: Randomizer, k: nat)
    ensures
        k >= 2 ==> spec_run(rz, k)->TTATGM2P_h1 == spec_run_draw(rz, (k - 1) as nat),
        k >= 3 ==> spec_run(rz, k)->TTATGM2P_h2 == spec_run_draw(rz, (k - 2) as nat),
        k >= 4 ==> spec_run(rz, k)->TTATGM2P_h3 == spec_run_draw(rz, (k - 3) as nat),
    decreases k,
{
    if k >= 2 {
        lemma_run_history(rz, (k - 1) as nat);
    }
}

/// Law: over any run of draws, the `k`-th drawn index differs from each of
/// the four indices drawn just before it, unless the five-round redraw cap
/// ran out on that draw — and even then the draw completes normally.
pub proof fn lemma_no_repeat_in_window(rz: Randomizer, k: nat)
    requires
        k >= 5,
    ensures
        ({
            let st = spec_run(rz, (k - 1) as nat);
            match st {
                Randomizer::TTATGM2P { seed, h0, h1, h2, h3 } => pick_exhausted(
                    seed,
                    h0,
                    h1,
                    h2,
                    h3,
                    5,
                ) || (spec_run_draw(rz, k) != spec_run_draw(rz, (k - 1) as nat) && spec_run_draw(
                    rz,
                    k,
                ) != spec_run_draw(rz, (k - 2) as nat) && spec_run_draw(rz, k) != spec_run_draw(
                    rz,
                    (k - 3) as nat,
                ) && spec_run_draw(rz, k) != spec_run_draw(rz, (k - 4) as nat)),
            }
        }),
{
    let st = spec_run(rz, (k - 1) as nat);
    lemma_run_history(rz, (k - 1) as nat);
    lemma_draw_avoids_recent_window(st);
    assert(spec_run(rz, k) == spec_next(st).1);
}

/// Law: one draw never repeats a piece index still in the four-entry
/// history unless the five-round redraw cap ran out.  The successor state
/// carries the drawn index at the front of the history, so over any run no
/// index appears twice within a window of four consecutive draws except
/// past the cap — and even then the draw completes normally.
pub proof fn lemma_draw_avoids_recent_window(rz: Randomizer)
    ensures
        ({
            let drawn = spec_next(rz).1->TTATGM2P_h0;
            match rz {
                Randomizer::TTATGM2P { seed, h0, h1, h2, h3 } => !hist_contains(
                    h0,
                    h1,
                    h2,
                    h3,
                    drawn,
                ) || pick_exhausted(seed, h0, h1, h2, h3, 5),
            }
        }),
{
    match rz {
        Randomizer::TTATGM2P { seed, h0, h1, h2, h3 } => {
            lemma_history_avoidance(seed, h0, h1, h2, h3, 5);
        },
    }
}

/// The chosen index is fresh with respect to the history, or the redraw
/// cap was exhausted.
pub proof fn lemma_history_avoidance(seed: u32, h0: u8, h1: u8, h2: u8, h3: u8, k: nat)
    requires
        k >= 1,
    ensures
        !hist_contains(h0, h1, h2, h3, spec_pick(seed, h0, h1, h2, h3, k).0) || pick_exhausted(
            seed,
            h0,
            h1,
            h2,
            h3,
            k,
        ),
    decreases k,
{
    let s1 = lcg_next(seed);
    let r1 = (draw_of(s1) % 7) as u8;
    if hist_contains(h0, h1, h2, h3, r1) && k > 1 {
        lemma_history_avoidance(lcg_next(s1), h0, h1, h2, h3, (k - 1) as nat);
    }
}

} // verus!
