//! The canvas: the pixels of the label that is being composed.
//!
//! A pixel is a 32-bit value. The blank canvas holds the highest value in every
//! pixel; drawing sets pixels to zero or inverts them.

use vstd::prelude::*;

verus! {

/// The value of a pixel that nothing was drawn on.
pub const BLANK: u32 = u32::MAX;

/// The value of a pixel that was drawn on.
pub const INK: u32 = 0;

/// A canvas of this many pixels with nothing drawn on it.
pub open spec fn blank_pixels(count: nat) -> Seq<u32> {
    Seq::new(count, |i: int| BLANK)
}

/// Whether nothing is drawn on the pixels.
pub open spec fn all_blank(pixels: Seq<u32>) -> bool {
    forall|i: int| 0 <= i < pixels.len() ==> #[trigger] pixels[i] == BLANK
}

/// The pixel that inverting a pixel gives: ink on a blank pixel, blank otherwise.
pub open spec fn inverted(pixel: u32) -> u32 {
    if pixel == BLANK {
        INK
    } else {
        BLANK
    }
}

/// The pixels of the label, row by row, with its measures.
#[derive(Debug)]
pub struct Canvas {
    pixels: Vec<u32>,
    width: usize,
    height: usize,
}

impl View for Canvas {
    type V = Seq<u32>;

    closed spec fn view(&self) -> Seq<u32> {
        self.pixels@
    }
}

impl Canvas {
    /// Pixels in a row.
    pub closed spec fn spec_width(&self) -> usize {
        self.width
    }

    /// Rows.
    pub closed spec fn spec_height(&self) -> usize {
        self.height
    }

    /// A blank canvas of the given measures, or nothing when the number of its
    /// pixels does not fit the machine.
    pub fn new(width: usize, height: usize) -> (canvas: Option<Canvas>)
        ensures
            canvas is Some <==> width * height <= usize::MAX,
            canvas is Some ==> canvas->Some_0@ == blank_pixels((width * height) as nat)
                && canvas->Some_0.spec_width() == width && canvas->Some_0.spec_height() == height,
    {
        let count = match width.checked_mul(height) {
            Some(count) => count,
            None => {
                return None;
            },
        };
        let mut pixels: Vec<u32> = Vec::new();
        let mut i: usize = 0;
        while i < count
            invariant
                i <= count,
                pixels@ == blank_pixels(i as nat),
            decreases count - i,
        {
            pixels.push(BLANK);
            proof {
                assert(pixels@ =~= blank_pixels((i + 1) as nat));
            }
            i += 1;
        }
        Some(Canvas { pixels, width, height })
    }

    /// Pixels in a row.
    #[verifier::when_used_as_spec(spec_width)]
    pub fn width(&self) -> (width: usize)
        ensures
            width == self.spec_width(),
    {
        self.width
    }

    /// Rows.
    #[verifier::when_used_as_spec(spec_height)]
    pub fn height(&self) -> (height: usize)
        ensures
            height == self.spec_height(),
    {
        self.height
    }

    /// The pixels, row by row.
    pub fn pixels(&self) -> (pixels: &Vec<u32>)
        ensures
            pixels@ == self@,
    {
        &self.pixels
    }

    /// Whether nothing is drawn on the canvas.
    pub fn is_blank(&self) -> (blank: bool)
        ensures
            blank == all_blank(self@),
    {
        let mut i: usize = 0;
        while i < self.pixels.len()
            invariant
                i <= self.pixels.len(),
                forall|k: int| 0 <= k < i ==> #[trigger] self.pixels@[k] == BLANK,
            decreases self.pixels.len() - i,
        {
            if self.pixels[i] != BLANK {
                return false;
            }
            i += 1;
        }
        true
    }

    /// A copy of the pixels.
    pub fn snapshot(&self) -> (copy: Vec<u32>)
        ensures
            copy@ == self@,
    {
        let copy = self.pixels.clone();
        proof {
            assert(copy@ =~= self.pixels@);
        }
        copy
    }

    /// Wipes the canvas.
    pub fn clear(&mut self)
        ensures
            final(self)@ == blank_pixels(old(self)@.len()),
            final(self).spec_width() == old(self).spec_width(),
            final(self).spec_height() == old(self).spec_height(),
    {
        let count = self.pixels.len();
        let mut i: usize = 0;
        while i < count
            invariant
                i <= count,
                count == self.pixels@.len(),
                self.width == old(self).width,
                self.height == old(self).height,
                forall|k: int| 0 <= k < i ==> #[trigger] self.pixels@[k] == BLANK,
            decreases count - i,
        {
            self.pixels.set(i, BLANK);
            i += 1;
        }
        proof {
            assert(self.pixels@ =~= blank_pixels(old(self)@.len()));
        }
    }

    /// Puts ink on the pixel at `position`; a position outside the canvas is
    /// ignored.
    pub fn ink(&mut self, position: usize)
        ensures
            final(self)@ == (if position < old(self)@.len() {
                old(self)@.update(position as int, INK)
            } else {
                old(self)@
            }),
            final(self).spec_width() == old(self).spec_width(),
            final(self).spec_height() == old(self).spec_height(),
    {
        if position < self.pixels.len() {
            self.pixels.set(position, INK);
        }
    }

    /// Inverts the pixel at `position`, so that what is drawn over ink shows; a
    /// position outside the canvas is ignored.
    pub fn toggle(&mut self, position: usize)
        ensures
            final(self)@ == (if position < old(self)@.len() {
                old(self)@.update(position as int, inverted(old(self)@[position as int]))
            } else {
                old(self)@
            }),
            final(self).spec_width() == old(self).spec_width(),
            final(self).spec_height() == old(self).spec_height(),
    {
        if position < self.pixels.len() {
            let pixel = self.pixels[position];
            if pixel == BLANK {
                self.pixels.set(position, INK);
            } else {
                self.pixels.set(position, BLANK);
            }
        }
    }
}

} // verus!
