use vstd::prelude::*;

use crate::error::Error;

verus! {

/// An integer pixel position: how far right and how far down.
#[derive(Clone, Copy, Debug, Default, PartialEq, Eq, Structural)]
pub struct Pos2 {
    /// How far to the right.
    pub x: i32,
    /// How far down.
    pub y: i32,
}

/// An integer pixel extent: width and height.
#[derive(Clone, Copy, Debug, Default, PartialEq, Eq, Structural)]
pub struct Vec2 {
    /// Rightwards. Width.
    pub x: i32,
    /// Downwards. Height.
    pub y: i32,
}

/// One video frame bound for the frame sender: an RGBA byte buffer sized to
/// the captured region, with the region's placement inside the window.
pub struct NDIFrameData {
    pub buf: Vec<u8>,
    position: Pos2,
    size: Vec2,
    outer_window_size: Vec2,
}

/// The fill value of a fresh frame buffer: a semi-transparent grey, so a
/// frame that was never written by the renderer is visibly wrong rather than
/// invisible.
pub const FRAME_FILL_BYTE: u8 = 244;

impl NDIFrameData {
    /// The frame's byte contents.
    pub closed spec fn bytes(&self) -> Seq<u8> {
        self.buf@
    }

    pub closed spec fn position(&self) -> Pos2 {
        self.position
    }

    pub closed spec fn size(&self) -> Vec2 {
        self.size
    }

    pub closed spec fn outer_window_size(&self) -> Vec2 {
        self.outer_window_size
    }

    /// Allocate a frame for a region of `size` pixels at `position` inside a
    /// window of `outer_window_size`: four bytes per pixel, every byte primed
    /// with the fill value. A region of negative area cannot be converted,
    /// and one whose byte count exceeds the address space cannot be
    /// allocated.
    pub fn try_from(position: Pos2, size: Vec2, outer_window_size: Vec2) -> (r: Result<
        NDIFrameData,
        Error,
    >)
        ensures
            match r {
                Ok(d) => {
                    &&& 0 <= size.x * size.y
                    &&& size.x * size.y * 4 <= usize::MAX
                    &&& d.bytes().len() == size.x * size.y * 4
                    &&& forall|i: int| 0 <= i < d.bytes().len() ==> d.bytes()[i] == FRAME_FILL_BYTE
                    &&& d.position() == position
                    &&& d.size() == size
                    &&& d.outer_window_size() == outer_window_size
                },
                Err(Error::TypeConversionError) => size.x * size.y < 0,
                Err(Error::InvalidSDIByteBufferCapacity) => {
                    &&& 0 <= size.x * size.y
                    &&& size.x * size.y * 4 > usize::MAX
                },
                Err(_) => false,
            },
    {
        let x64: i64 = size.x as i64;
        let y64: i64 = size.y as i64;
        proof {
            assert(i64::MIN <= x64 * y64 <= i64::MAX) by (nonlinear_arith)
                requires
                    -0x8000_0000 <= x64 <= 0x7fff_ffff,
                    -0x8000_0000 <= y64 <= 0x7fff_ffff,
            ;
        }
        let area: i64 = x64 * y64;
        if area < 0 {
            return Err(Error::TypeConversionError);
        }
        if (area as u64) > (usize::MAX as u64) / 4 {
            return Err(Error::InvalidSDIByteBufferCapacity);
        }
        let capacity: usize = (area as usize) * 4;
        let mut buf: Vec<u8> = Vec::new();
        let mut i: usize = 0;
        while i < capacity
            invariant
                0 <= i <= capacity,
                buf@.len() == i,
                forall|j: int| 0 <= j < i ==> buf@[j] == FRAME_FILL_BYTE,
            decreases capacity - i,
        {
            buf.push(FRAME_FILL_BYTE);
            i = i + 1;
        }
        Ok(NDIFrameData { buf, position, size, outer_window_size })
    }

    /// The window region this frame's pixels are read from, as arguments for
    /// a bottom-left-origin pixel read: left edge, bottom edge measured from
    /// the window bottom, width, height.
    pub fn read_region(&self) -> (r: (i32, i32, i32, i32))
        requires
            i32::MIN <= self.position().y + self.size().y <= i32::MAX,
            i32::MIN <= self.outer_window_size().y - (self.position().y + self.size().y)
                <= i32::MAX,
        ensures
            r.0 == self.position().x,
            r.1 == self.outer_window_size().y - (self.position().y + self.size().y),
            r.2 == self.size().x,
            r.3 == self.size().y,
    {
        (
            self.position.x,
            self.outer_window_size.y - (self.position.y + self.size.y),
            self.size.x,
            self.size.y,
        )
    }
}

} // verus!
