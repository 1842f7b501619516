use vstd::prelude::*;

verus! {

/// Height of the monochrome pixel grid.
pub const FRAME_BUFFER_ROWS: usize = 32;
/// Width of the monochrome pixel grid.
pub const FRAME_BUFFER_COLS: usize = 64;
/// Total number of pixels.
pub const FRAME_BUFFER_SIZE: usize = FRAME_BUFFER_COLS * FRAME_BUFFER_ROWS;

/// The 64x32 monochrome pixel grid, stored row-major.
pub struct FrameBuffer {
    buffer: Vec<bool>,
}

impl View for FrameBuffer {
    type V = Seq<bool>;

    closed spec fn view(&self) -> Seq<bool> {
        self.buffer@
    }
}

/// An all-dark frame: every pixel off.
pub open spec fn blank_frame() -> Seq<bool> {
    Seq::new(FRAME_BUFFER_SIZE as nat, |i: int| false)
}

impl FrameBuffer {
    pub open spec fn wf(&self) -> bool {
        self@.len() == FRAME_BUFFER_SIZE
    }

    /// A cleared frame buffer with every pixel off.
    pub fn new() -> (r: FrameBuffer)
        ensures
            r.wf(),
            r@ == blank_frame(),
    {
        let r = FrameBuffer { buffer: vec![false; FRAME_BUFFER_SIZE] };
        proof {
            assert(r@ =~= blank_frame());
        }
        r
    }

    /// A frame buffer with exactly the given pixels.
    pub fn from_pixels(pixels: Vec<bool>) -> (r: FrameBuffer)
        requires
            pixels@.len() == FRAME_BUFFER_SIZE,
        ensures
            r.wf(),
            r@ == pixels@,
    {
        FrameBuffer { buffer: pixels }
    }

    /// A copy of this frame with the same pixels.
    pub fn duplicate(&self) -> (r: FrameBuffer)
        ensures
            r@ == self@,
    {
        let buffer = self.buffer.clone();
        proof {
            assert(buffer@ =~= self.buffer@);
        }
        FrameBuffer { buffer }
    }

    /// Replaces the whole pixel grid with the given one.
    pub fn load(&mut self, frame_buffer: FrameBuffer)
        requires
            frame_buffer.wf(),
        ensures
            final(self).wf(),
            final(self)@ == frame_buffer@,
    {
        self.buffer = frame_buffer.buffer;
    }

    /// XOR-blits one sprite bit into the pixel at (`x`, `y`) and reports
    /// whether that pixel was erased (went from on to off), which happens
    /// exactly when the pixel was on and the incoming bit is set.
    pub fn xor(&mut self, x: usize, y: usize, value: bool) -> (turned_off: bool)
        requires
            old(self).wf(),
            x < FRAME_BUFFER_COLS,
            y < FRAME_BUFFER_ROWS,
        ensures
            final(self).wf(),
            final(self)@ == old(self)@.update(
                y * FRAME_BUFFER_COLS + x,
                old(self)@[y * FRAME_BUFFER_COLS + x] != value,
            ),
            turned_off == (old(self)@[y * FRAME_BUFFER_COLS + x] && value),
    {
        let pixel_pos = y * FRAME_BUFFER_COLS + x;
        let old_val = self.buffer[pixel_pos];
        let new_val = old_val ^ value;

        self.buffer[pixel_pos] = new_val;

        old_val && !new_val
    }

    /// Read access to the pixel grid.
    pub fn get_ref(&self) -> (r: &Vec<bool>)
        ensures
            r@ == self@,
    {
        &self.buffer
    }
}

} // verus!
