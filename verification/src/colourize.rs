//! Turning a coverage mask into coloured pixels.

use crate::colours::TextColour;
use vstd::prelude::*;

verus! {

/// The coloured form of a coverage mask: four bytes per mask byte, the
/// colour's red, green and blue followed by the mask byte as alpha. The
/// colour's own alpha is not used.
pub open spec fn colourized(mask: Seq<u8>, colour: TextColour) -> Seq<u8> {
    Seq::new(
        4 * mask.len(),
        |k: int|
            if k % 4 == 0 {
                colour.r
            } else if k % 4 == 1 {
                colour.g
            } else if k % 4 == 2 {
                colour.b
            } else {
                mask[k / 4]
            },
    )
}

/// Colours a coverage mask.
pub fn colourize(mask: &[u8], colour: TextColour) -> (pixels: Vec<u8>)
    ensures
        pixels@ == colourized(mask@, colour),
{
    let mut pixels: Vec<u8> = Vec::new();
    let mut i: usize = 0;
    while i < mask.len()
        invariant
            i <= mask@.len(),
            pixels@.len() == 4 * i,
            forall|k: int| 0 <= k < 4 * i ==> #[trigger] pixels@[k] == colourized(mask@, colour)[k],
        decreases mask@.len() - i,
    {
        let coverage: u8 = mask[i];
        pixels.push(colour.r);
        pixels.push(colour.g);
        pixels.push(colour.b);
        pixels.push(coverage);
        i += 1;
    }
    assert(pixels@ =~= colourized(mask@, colour));
    pixels
}

/// A coloured buffer is four times as long as its mask, and the alpha byte
/// of each pixel is the mask byte it came from.
pub proof fn lemma_colourized_pixels(mask: Seq<u8>, colour: TextColour, p: int)
    requires
        0 <= p < mask.len(),
    ensures
        colourized(mask, colour).len() == 4 * mask.len(),
        colourized(mask, colour)[4 * p] == colour.r,
        colourized(mask, colour)[4 * p + 1] == colour.g,
        colourized(mask, colour)[4 * p + 2] == colour.b,
        colourized(mask, colour)[4 * p + 3] == mask[p],
{
}

} // verus!
