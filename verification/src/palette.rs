//! Colour mapping: from the outcome of iterating one plane point to an RGBA pixel.

use vstd::prelude::*;

verus! {

/// Number of entries in the colour table.
pub const PALETTE_SIZE: usize = 16;

/// Alpha of a pixel whose point escaped.
pub const OPAQUE: u8 = 255;

/// Outcome of iterating one point of the plane.
#[derive(Clone, Copy, Debug, PartialEq, Eq, Structural)]
pub enum IterationResult {
    /// The orbit left the bailout disc at the step with this index, counted from zero.
    Escaped(usize),
    /// The orbit stayed inside the bailout disc for every step that was tried.
    Bounded,
}

/// The colour table: red, green and blue of the entry at `slot`, for `0 <= slot < 16`.
pub open spec fn palette_entry(slot: int) -> Seq<u8> {
    if slot == 0 {
        seq![66u8, 30u8, 15u8]
    } else if slot == 1 {
        seq![25u8, 7u8, 26u8]
    } else if slot == 2 {
        seq![9u8, 1u8, 47u8]
    } else if slot == 3 {
        seq![4u8, 4u8, 73u8]
    } else if slot == 4 {
        seq![0u8, 7u8, 100u8]
    } else if slot == 5 {
        seq![12u8, 44u8, 138u8]
    } else if slot == 6 {
        seq![24u8, 82u8, 177u8]
    } else if slot == 7 {
        seq![57u8, 125u8, 209u8]
    } else if slot == 8 {
        seq![134u8, 181u8, 229u8]
    } else if slot == 9 {
        seq![211u8, 236u8, 248u8]
    } else if slot == 10 {
        seq![241u8, 233u8, 191u8]
    } else if slot == 11 {
        seq![248u8, 201u8, 95u8]
    } else if slot == 12 {
        seq![255u8, 170u8, 0u8]
    } else if slot == 13 {
        seq![204u8, 128u8, 0u8]
    } else if slot == 14 {
        seq![153u8, 87u8, 0u8]
    } else {
        seq![106u8, 52u8, 3u8]
    }
}

/// The pixel of a point that escaped at step `n`: the table entry at `n mod 16`, fully opaque.
pub open spec fn escape_color(n: int) -> Seq<u8> {
    palette_entry(n % 16).push(OPAQUE)
}

/// The pixel of a point that did not escape: black, fully transparent.
pub open spec fn bounded_color() -> Seq<u8> {
    seq![0u8, 0u8, 0u8, 0u8]
}

/// The pixel that an iteration outcome is drawn with.
pub open spec fn color_of(result: IterationResult) -> Seq<u8> {
    match result {
        IterationResult::Escaped(n) => escape_color(n as int),
        IterationResult::Bounded => bounded_color(),
    }
}

/// Red, green and blue of the table entry that the count `n` selects.
pub fn wikipedia(n: usize) -> (rgb: [u8; 3])
    ensures
        rgb@ == palette_entry(n as int % 16),
{
    let slot: usize = n % PALETTE_SIZE;
    let rgb: [u8; 3] = match slot {
        0 => [66, 30, 15],
        1 => [25, 7, 26],
        2 => [9, 1, 47],
        3 => [4, 4, 73],
        4 => [0, 7, 100],
        5 => [12, 44, 138],
        6 => [24, 82, 177],
        7 => [57, 125, 209],
        8 => [134, 181, 229],
        9 => [211, 236, 248],
        10 => [241, 233, 191],
        11 => [248, 201, 95],
        12 => [255, 170, 0],
        13 => [204, 128, 0],
        14 => [153, 87, 0],
        _ => [106, 52, 3],
    };
    assert(rgb@ =~= palette_entry(n as int % 16));
    rgb
}

/// The opaque pixel of a point that escaped at step `n`.
pub fn coarse_color_map(n: usize) -> (pixel: [u8; 4])
    ensures
        pixel@ == escape_color(n as int),
{
    let rgb = wikipedia(n);
    let pixel: [u8; 4] = [rgb[0], rgb[1], rgb[2], OPAQUE];
    assert(pixel@ =~= escape_color(n as int));
    pixel
}

/// The pixel for an iteration outcome: transparent black where the point did not escape,
/// otherwise the opaque table colour of its escape step.
pub fn color(result: IterationResult) -> (pixel: [u8; 4])
    ensures
        pixel@ == color_of(result),
        result is Bounded ==> pixel[3] == 0,
        result is Escaped ==> pixel[3] == OPAQUE,
{
    match result {
        IterationResult::Escaped(n) => coarse_color_map(n),
        IterationResult::Bounded => {
            let pixel: [u8; 4] = [0, 0, 0, 0];
            assert(pixel@ =~= bounded_color());
            pixel
        },
    }
}

/// The colour table repeats with period 16: a step count and the count sixteen steps later
/// are drawn with the same pixel.
pub proof fn lemma_palette_cycles(n: nat)
    ensures
        escape_color(n as int) == escape_color(n as int + 16),
{
    assert((n + 16) % 16 == n as int % 16);
}

/// A point that did not escape is drawn fully transparent, and black.
pub proof fn lemma_bounded_is_transparent()
    ensures
        color_of(IterationResult::Bounded).len() == 4,
        color_of(IterationResult::Bounded)[3] == 0,
        color_of(IterationResult::Bounded) == seq![0u8, 0u8, 0u8, 0u8],
{
}

/// A point that escaped is drawn fully opaque, whatever its step count.
pub proof fn lemma_escaped_is_opaque(n: usize)
    ensures
        color_of(IterationResult::Escaped(n)).len() == 4,
        color_of(IterationResult::Escaped(n))[3] == OPAQUE,
{
}

} // verus!
