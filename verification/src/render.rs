//! Rendering a brightness reading as a fixed-width bar.

use vstd::prelude::*;

verus! {

/// The bar is always twenty cells wide.
pub const BAR_WIDTH: usize = 20;

/// How many of the twenty cells are filled for `current` out of
/// `maximum`: the percentage rounded to the nearest cell (halves
/// round up), zero when the maximum is zero, and never more than
/// the full bar.
pub open spec fn filled_cells(current: u16, maximum: u16) -> int {
    if maximum == 0 {
        0
    } else {
        let rounded = (40 * current + maximum) / (2 * maximum);
        if rounded > 20 {
            20
        } else {
            rounded
        }
    }
}

/// The shape of a rendered bar: `filled` full glyphs, then empty
/// glyphs up to the fixed width.
pub open spec fn bar_shape(s: Seq<char>, filled: int) -> bool {
    &&& s.len() == BAR_WIDTH
    &&& forall|i: int| 0 <= i < filled ==> s[i] == '\u{2588}'
    &&& forall|i: int| filled <= i < BAR_WIDTH ==> s[i] == '\u{2591}'
}

/// Builds the visual brightness bar: the current value's share of
/// twenty cells as full-block glyphs, padded with light-shade glyphs.
pub fn create_brightness_bar(current: u16, max: u16) -> (r: String)
    ensures
        bar_shape(r@, filled_cells(current, max)),
{
    let filled: usize = if max == 0 {
        0
    } else {
        let rounded: u32 = (40 * (current as u32) + (max as u32)) / (2 * (max as u32));
        if rounded > 20 {
            20
        } else {
            rounded as usize
        }
    };
    proof {
        assert(filled == filled_cells(current, max));
        reveal_strlit("\u{2588}");
        reveal_strlit("\u{2591}");
    }
    let mut bar = String::new();
    let mut i: usize = 0;
    while i < filled
        invariant
            i <= filled <= BAR_WIDTH,
            bar@.len() == i,
            forall|j: int| 0 <= j < i ==> bar@[j] == '\u{2588}',
        decreases filled - i,
    {
        bar.append("\u{2588}");
        proof {
            reveal_strlit("\u{2588}");
            assert(("\u{2588}")@ =~= seq!['\u{2588}']);
        }
        i = i + 1;
    }
    while i < BAR_WIDTH
        invariant
            filled <= i <= BAR_WIDTH,
            bar@.len() == i,
            forall|j: int| 0 <= j < filled ==> bar@[j] == '\u{2588}',
            forall|j: int| filled <= j < i ==> bar@[j] == '\u{2591}',
        decreases BAR_WIDTH - i,
    {
        bar.append("\u{2591}");
        proof {
            reveal_strlit("\u{2591}");
            assert(("\u{2591}")@ =~= seq!['\u{2591}']);
        }
        i = i + 1;
    }
    bar
}

} // verus!
