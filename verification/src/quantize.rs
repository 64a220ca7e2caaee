//! Reduction of a block of four samples to one terminal cell.
//!
//! A block lists its samples as top-left, top-right, bottom-left and
//! bottom-right.

use crate::color::{blend, blend_of, diff, diff_of};
use crate::grid::{Cell, Pixel};
use vstd::prelude::*;

verus! {

/// The number of ways in which the quadrant mode may split a block.
pub const CANDIDATES: usize = 7;

/// The cell of the solid mode: the blend of all four samples as both colours,
/// under a space.
pub open spec fn solid_cell(block: Seq<[u8; 4]>) -> Cell {
    Cell { fg: blend_of(block), bg: blend_of(block), ch: ' ' }
}

/// The cell of the half-block mode: the blend of the top pair over the blend
/// of the bottom pair.
pub open spec fn half_cell(block: Seq<[u8; 4]>) -> Cell {
    Cell { fg: blend_of(block.subrange(0, 2)), bg: blend_of(block.subrange(2, 4)), ch: '▀' }
}

/// The samples of `block` in the order in which candidate `n` reads them.
/// A candidate below four sets its first sample apart from the other three;
/// a later one sets its first pair against its second pair.
pub open spec fn arranged(block: Seq<[u8; 4]>, n: int) -> Seq<[u8; 4]> {
    let (a, b, c, d) = (block[0], block[1], block[2], block[3]);
    if n == 1 {
        seq![b, a, c, d]
    } else if n == 2 {
        seq![c, b, a, d]
    } else if n == 3 {
        seq![d, b, c, a]
    } else if n == 5 {
        seq![a, c, b, d]
    } else if n == 6 {
        seq![a, d, b, c]
    } else {
        seq![a, b, c, d]
    }
}

/// The glyph that shows the split of candidate `n`.
pub open spec fn glyph_of(n: int) -> char {
    if n == 0 {
        '▘'
    } else if n == 1 {
        '▝'
    } else if n == 2 {
        '▖'
    } else if n == 3 {
        '▗'
    } else if n == 4 {
        '▀'
    } else if n == 5 {
        '▌'
    } else {
        '▚'
    }
}

/// The foreground colour of candidate `n`: the sample set apart, or the
/// blend of the first pair.
pub open spec fn candidate_fg(block: Seq<[u8; 4]>, n: int) -> Seq<u8> {
    let q = arranged(block, n);
    if n < 4 {
        q[0]@
    } else {
        blend_of(q.subrange(0, 2))
    }
}

/// The background colour of candidate `n`: the blend of the other three
/// samples, or the blend of the second pair.
pub open spec fn candidate_bg(block: Seq<[u8; 4]>, n: int) -> Seq<u8> {
    let q = arranged(block, n);
    if n < 4 {
        blend_of(q.subrange(1, 4))
    } else {
        blend_of(q.subrange(2, 4))
    }
}

/// The error of candidate `n`: the summed distance of each blended sample
/// from the blend that stands for it.
pub open spec fn candidate_error(block: Seq<[u8; 4]>, n: int) -> int {
    let q = arranged(block, n);
    let fg = candidate_fg(block, n);
    let bg = candidate_bg(block, n);
    if n < 4 {
        diff_of(q[1]@, bg) + diff_of(q[2]@, bg) + diff_of(q[3]@, bg)
    } else {
        diff_of(q[0]@, fg) + diff_of(q[1]@, fg) + diff_of(q[2]@, bg) + diff_of(q[3]@, bg)
    }
}

/// The cell that candidate `n` proposes.
pub open spec fn candidate_cell(block: Seq<[u8; 4]>, n: int) -> Cell {
    Cell { fg: candidate_fg(block, n), bg: candidate_bg(block, n), ch: glyph_of(n) }
}

/// Among the candidates `0..=n`, the first one whose error is the least.
pub open spec fn first_best(block: Seq<[u8; 4]>, n: nat) -> int
    decreases n,
{
    if n == 0 {
        0
    } else {
        let p = first_best(block, (n - 1) as nat);
        if candidate_error(block, n as int) < candidate_error(block, p) {
            n as int
        } else {
            p
        }
    }
}

/// The candidate that the quadrant mode selects.
pub open spec fn selected(block: Seq<[u8; 4]>) -> int {
    first_best(block, 6)
}

/// The cell of the quadrant mode: that of the selected candidate.
pub open spec fn quadrant_cell(block: Seq<[u8; 4]>) -> Cell {
    candidate_cell(block, selected(block))
}

/// The cell of a block under the given mode: solid for 1, half-block for 2,
/// quadrant for every other value.
pub open spec fn cell_of(block: Seq<[u8; 4]>, mode: u8) -> Cell {
    if mode == 1 {
        solid_cell(block)
    } else if mode == 2 {
        half_cell(block)
    } else {
        quadrant_cell(block)
    }
}

/// `first_best(block, n)` is one of the candidates `0..=n`, no candidate of
/// them has a smaller error, and every earlier one has a larger error.
pub proof fn lemma_first_best(block: Seq<[u8; 4]>, n: nat)
    ensures
        0 <= first_best(block, n) <= n,
        forall|j: int|
            0 <= j <= n ==> candidate_error(block, first_best(block, n)) <= #[trigger] candidate_error(
                block,
                j,
            ),
        forall|j: int|
            0 <= j < first_best(block, n) ==> candidate_error(block, first_best(block, n))
                < #[trigger] candidate_error(block, j),
    decreases n,
{
    if n > 0 {
        lemma_first_best(block, (n - 1) as nat);
    }
}

/// The selected candidate is one of the seven, its error is at most that of
/// each of the others, and it is the first with that error.
pub proof fn lemma_selected_is_least(block: Seq<[u8; 4]>)
    ensures
        0 <= selected(block) < CANDIDATES,
        forall|j: int|
            0 <= j < CANDIDATES ==> candidate_error(block, selected(block))
                <= #[trigger] candidate_error(block, j),
        forall|j: int|
            0 <= j < selected(block) ==> candidate_error(block, selected(block))
                < #[trigger] candidate_error(block, j),
{
    lemma_first_best(block, 6);
}

/// One way to split a block, with the error it leaves.
#[derive(Clone, Copy, Debug)]
pub struct Candidate {
    pub error: i32,
    pub cell: Pixel,
}

/// The solid mode: one colour for the whole cell.
pub fn do_pixel_1(block: &[[u8; 4]; 4]) -> (p: Pixel)
    ensures
        p@ == solid_cell(block@),
        p.fg == p.bg,
        p.ch == ' ',
{
    let color = blend(block.as_slice());
    Pixel { fg: color, bg: color, ch: ' ' }
}

/// The half-block mode: the top pair over the bottom pair.
pub fn do_pixel_2(block: &[[u8; 4]; 4]) -> (p: Pixel)
    ensures
        p@ == half_cell(block@),
{
    let fg = blend(&block[0..2]);
    let bg = blend(&block[2..4]);
    Pixel { fg, bg, ch: '▀' }
}

/// The glyph that shows the split of candidate `n`.
pub fn glyph(n: usize) -> (ch: char)
    requires
        n < CANDIDATES,
    ensures
        ch == glyph_of(n as int),
{
    match n {
        0 => '▘',
        1 => '▝',
        2 => '▖',
        3 => '▗',
        4 => '▀',
        5 => '▌',
        _ => '▚',
    }
}

/// Candidate `n` of the quadrant mode for `block`: its cell and its error.
pub fn candidate(block: &[[u8; 4]; 4], n: usize) -> (c: Candidate)
    requires
        n < CANDIDATES,
    ensures
        c.error == candidate_error(block@, n as int),
        c.cell@ == candidate_cell(block@, n as int),
        0 <= c.error <= 780300,
{
    let (a, b, c, d) = (block[0], block[1], block[2], block[3]);
    let q: [[u8; 4]; 4] = match n {
        1 => [b, a, c, d],
        2 => [c, b, a, d],
        3 => [d, b, c, a],
        5 => [a, c, b, d],
        6 => [a, d, b, c],
        _ => [a, b, c, d],
    };
    assert(q@ =~= arranged(block@, n as int));
    let (error, fg, bg) = if n < 4 {
        let rest = blend(&q[1..4]);
        let error = diff(q[1], rest) + diff(q[2], rest) + diff(q[3], rest);
        (error, q[0], rest)
    } else {
        let first = blend(&q[0..2]);
        let second = blend(&q[2..4]);
        let error = diff(q[0], first) + diff(q[1], first) + diff(q[2], second) + diff(
            q[3],
            second,
        );
        (error, first, second)
    };
    Candidate { error, cell: Pixel { fg, bg, ch: glyph(n) } }
}

/// The quadrant mode: the candidate with the least error, the earliest one
/// where several share it.
pub fn do_pixel_4(block: &[[u8; 4]; 4]) -> (p: Pixel)
    ensures
        p@ == quadrant_cell(block@),
        forall|j: int|
            0 <= j < CANDIDATES ==> candidate_error(block@, selected(block@))
                <= #[trigger] candidate_error(block@, j),
{
    let mut best = candidate(block, 0);
    let mut n: usize = 1;
    while n < CANDIDATES
        invariant
            1 <= n <= CANDIDATES,
            best.error == candidate_error(block@, first_best(block@, (n - 1) as nat)),
            best.cell@ == candidate_cell(block@, first_best(block@, (n - 1) as nat)),
        decreases CANDIDATES - n,
    {
        let next = candidate(block, n);
        if next.error < best.error {
            best = next;
        }
        n = n + 1;
    }
    proof {
        lemma_selected_is_least(block@);
    }
    best.cell
}

/// The cell of `block` under `mode`: solid for 1, half-block for 2, quadrant
/// for every other value.
pub fn quantize(block: &[[u8; 4]; 4], mode: u8) -> (p: Pixel)
    ensures
        p@ == cell_of(block@, mode),
{
    match mode {
        1 => do_pixel_1(block),
        2 => do_pixel_2(block),
        _ => do_pixel_4(block),
    }
}

} // verus!
