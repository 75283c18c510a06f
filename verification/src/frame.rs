//! The frame value that travels from producer to consumer.

use vstd::prelude::*;

verus! {

/// What a frame is, mathematically: its dimensions, its bytes and its
/// source timecode in 100 ns ticks.
pub struct FrameView {
    pub width: nat,
    pub height: nat,
    pub pixels: Seq<u8>,
    pub timecode: int,
}

impl FrameView {
    /// Number of bytes a tightly packed image of these dimensions has.
    pub open spec fn byte_len(self) -> nat {
        self.width * self.height * 4
    }

    /// The pixel buffer is tightly packed: four bytes per pixel, no padding.
    pub open spec fn well_formed(self) -> bool {
        self.pixels.len() == self.byte_len()
    }
}

/// One timestamped RGBA pixel buffer. Immutable once built; every value of
/// this type is tightly packed.
pub struct Frame {
    width: u32,
    height: u32,
    pixels: Vec<u8>,
    timecode: i64,
}

impl View for Frame {
    type V = FrameView;

    closed spec fn view(&self) -> FrameView {
        FrameView {
            width: self.width as nat,
            height: self.height as nat,
            pixels: self.pixels@,
            timecode: self.timecode as int,
        }
    }
}

impl Frame {
    #[verifier::type_invariant]
    closed spec fn packed(&self) -> bool {
        self.pixels@.len() == (self.width as nat) * (self.height as nat) * 4
    }

    /// Builds a frame from its parts. Succeeds exactly when `pixels` holds
    /// `width * height * 4` bytes.
    pub fn new(width: u32, height: u32, pixels: Vec<u8>, timecode: i64) -> (made: Option<Frame>)
        ensures
            made is Some <==> pixels@.len() == (width as nat) * (height as nat) * 4,
            made matches Some(f) ==> f@ == (FrameView {
                width: width as nat,
                height: height as nat,
                pixels: pixels@,
                timecode: timecode as int,
            }),
    {
        assert((width as int) * (height as int) <= 0xFFFF_FFFF * 0xFFFF_FFFF) by (nonlinear_arith)
            requires
                0 <= width <= 0xFFFF_FFFF,
                0 <= height <= 0xFFFF_FFFF,
        ;
        let expected: u128 = (width as u128) * (height as u128) * 4;
        if pixels.len() as u128 == expected {
            Some(Frame { width, height, pixels, timecode })
        } else {
            None
        }
    }

    /// An independent copy with the same dimensions, bytes and timecode.
    pub fn duplicate(&self) -> (copy: Frame)
        ensures
            copy@ == self@,
    {
        proof {
            use_type_invariant(self);
        }
        let pixels = self.pixels.clone();
        assert(pixels@ =~= self.pixels@);
        Frame { width: self.width, height: self.height, pixels, timecode: self.timecode }
    }

    /// The same frame with its bytes replaced, as a transform stage hands
    /// it on. Succeeds exactly when `pixels` has the length of the bytes it
    /// replaces.
    pub fn with_pixels(&self, pixels: Vec<u8>) -> (made: Option<Frame>)
        ensures
            made is Some <==> pixels@.len() == self@.pixels.len(),
            made matches Some(f) ==> f@ == (FrameView { pixels: pixels@, ..self@ }),
    {
        proof {
            use_type_invariant(self);
        }
        Frame::new(self.width, self.height, pixels, self.timecode)
    }

    /// Width in pixels.
    pub fn width(&self) -> (w: u32)
        ensures
            w == self@.width,
            self@.well_formed(),
    {
        proof {
            use_type_invariant(self);
        }
        self.width
    }

    /// Height in pixels.
    pub fn height(&self) -> (h: u32)
        ensures
            h == self@.height,
            self@.well_formed(),
    {
        proof {
            use_type_invariant(self);
        }
        self.height
    }

    /// Source timecode in 100 ns ticks.
    pub fn timecode(&self) -> (t: i64)
        ensures
            t == self@.timecode,
            self@.well_formed(),
    {
        proof {
            use_type_invariant(self);
        }
        self.timecode
    }

    /// The packed RGBA bytes, row by row.
    pub fn pixels(&self) -> (p: &Vec<u8>)
        ensures
            p@ == self@.pixels,
            self@.well_formed(),
    {
        proof {
            use_type_invariant(self);
        }
        &self.pixels
    }
}

} // verus!
