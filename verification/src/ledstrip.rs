//! Colors, their wire encoding, and the fixed-size pixel buffer.

use vstd::prelude::*;

verus! {

/// One RGB pixel: three independent 8-bit channels. Every channel value is
/// valid; the type is freely copyable.
#[derive(Copy, Clone, PartialEq, Eq, Structural)]
pub struct LEDColor {
    pub r: u8,
    pub g: u8,
    pub b: u8,
}

/// The 32-bit wire word for a color: green in bits 31..24, red in bits
/// 23..16, blue in bits 15..8, zero padding in bits 7..0. This green-red-blue
/// order is the order the protocol shifts channels onto the wire.
pub open spec fn spec_encode(c: LEDColor) -> u32 {
    ((c.g as u32) << 24) | ((c.r as u32) << 16) | ((c.b as u32) << 8)
}

impl LEDColor {
    pub fn new(r: u8, g: u8, b: u8) -> (c: Self)
        ensures
            c == (LEDColor { r, g, b }),
    {
        Self { r, g, b }
    }

    /// Encode this color as its wire word.
    pub fn encode(&self) -> (w: u32)
        ensures
            w == spec_encode(*self),
    {
        ((self.g as u32) << 24) | ((self.r as u32) << 16) | ((self.b as u32) << 8)
    }
}

/// A fixed-size, owned buffer of NLED colors. The owner mutates it in place
/// between transmissions; the driver only reads it.
pub struct LEDStrip<const NLED: usize> {
    pub colors: [LEDColor; NLED],
}

/// The words a traversal of the strip yields: the encoding of each color,
/// in index order. A function of the colors alone, so traversing an
/// unchanged strip twice yields the same words.
pub open spec fn encoded_words<const NLED: usize>(s: LEDStrip<NLED>) -> Seq<u32> {
    Seq::new(NLED as nat, |i: int| spec_encode(s.colors@[i]))
}

impl<const NLED: usize> LEDStrip<NLED> {
    /// A strip with all NLED colors off: every channel zero.
    pub fn new() -> (s: Self)
        ensures
            forall|i: int| 0 <= i < NLED ==> s.colors@[i] == (LEDColor { r: 0, g: 0, b: 0 }),
    {
        LEDStrip { colors: [LEDColor { r: 0, g: 0, b: 0 }; NLED] }
    }

    /// The color at index `idx`.
    pub fn get_color(&self, idx: usize) -> (c: LEDColor)
        requires
            idx < NLED,
        ensures
            c == self.colors@[idx as int],
    {
        self.colors[idx]
    }

    /// Overwrite the color at index `idx`; the other colors are untouched.
    pub fn set_color(&mut self, idx: usize, c: LEDColor)
        requires
            idx < NLED,
        ensures
            final(self).colors@ == old(self).colors@.update(idx as int, c),
    {
        self.colors[idx] = c;
    }

    /// Restartable traversal: a fresh cursor over this strip's encoded words.
    pub fn iter(&self) -> (it: LEDStripIter<'_, NLED>)
        ensures
            it.strip == self,
            it.pos == 0,
    {
        LEDStripIter { strip: self, pos: 0 }
    }
}

/// A cursor over a strip: yields the encoded word of each color in index
/// order 0..NLED-1, encoding lazily on each step, then yields nothing.
pub struct LEDStripIter<'a, const NLED: usize> {
    pub strip: &'a LEDStrip<NLED>,
    pub pos: usize,
}

impl<'a, const NLED: usize> LEDStripIter<'a, NLED> {
    /// The next encoded word, or None once all NLED words were yielded.
    pub fn next(&mut self) -> (w: Option<u32>)
        ensures
            final(self).strip == old(self).strip,
            old(self).pos < NLED ==> {
                &&& w == Some(encoded_words(*old(self).strip)[old(self).pos as int])
                &&& final(self).pos == old(self).pos + 1
            },
            old(self).pos >= NLED ==> w is None && final(self).pos == old(self).pos,
    {
        if self.pos < NLED {
            let c = self.strip.colors[self.pos];
            self.pos = self.pos + 1;
            Some(c.encode())
        } else {
            None
        }
    }
}

/// Traversal law: an NLED-element strip yields exactly NLED encoded words,
/// and the word at position i is the encoding of color i.
pub proof fn lemma_traversal_order<const NLED: usize>(s: LEDStrip<NLED>)
    ensures
        encoded_words(s).len() == NLED,
        forall|i: int| 0 <= i < NLED ==> encoded_words(s)[i] == spec_encode(s.colors@[i]),
{
}

} // verus!
