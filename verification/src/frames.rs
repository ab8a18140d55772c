//! Raw video frames read from a decoder pipe: a frame is complete when all of
//! its bytes have arrived, the stream ends cleanly only between frames, and
//! progress is reported every few frames.
use vstd::prelude::*;

verus! {

/// Bytes in an RGBA frame of `width × height` pixels, when that count fits
/// in `usize`.
pub fn frame_byte_len(width: u32, height: u32) -> (r: Option<usize>)
    ensures
        width * height * 4 <= usize::MAX ==> r == Some((width * height * 4) as usize),
        width * height * 4 > usize::MAX ==> r is None,
{
    let wh = (width as usize).checked_mul(height as usize);
    match wh {
        Some(p) => p.checked_mul(4),
        None => {
            assert(width * height * 4 > usize::MAX) by (nonlinear_arith)
                requires
                    width * height > usize::MAX,
            ;
            None
        },
    }
}

/// What the reading loop does next.
#[derive(Debug, Clone, Copy, PartialEq, Eq, Structural)]
pub enum ReadStep {
    /// Read more bytes into the frame buffer, starting at `offset`.
    Read { offset: usize },
    /// The frame buffer holds a whole frame.
    Frame,
    /// Frames have no bytes: each one is complete before anything is read.
    Empty,
    /// The stream has ended between frames.
    End,
}

/// The stream stopped in the middle of a frame.
#[derive(Debug, Clone, Copy, PartialEq, Eq, Structural)]
pub struct TruncatedFrame {
    /// How many bytes of the frame had arrived.
    pub filled: usize,
}

/// Assembles fixed-size frames from reads of a byte stream.
pub struct FrameReader {
    frame_len: usize,
    filled: usize,
    ended: bool,
}

impl FrameReader {
    /// The reader's well-formedness: a frame is never overfilled.
    pub closed spec fn wf(&self) -> bool {
        self.filled <= self.frame_len
    }

    /// Bytes in one frame.
    pub closed spec fn spec_frame_len(&self) -> nat {
        self.frame_len as nat
    }

    /// Bytes of the current frame read so far.
    pub closed spec fn spec_filled(&self) -> nat {
        self.filled as nat
    }

    /// Whether the stream has ended.
    pub closed spec fn spec_ended(&self) -> bool {
        self.ended
    }

    /// The next step for a reader in the given state.
    pub open spec fn step_of(frame_len: nat, filled: nat, ended: bool) -> ReadStep {
        if ended {
            ReadStep::End
        } else if filled < frame_len {
            ReadStep::Read { offset: filled as usize }
        } else if frame_len == 0 {
            ReadStep::Empty
        } else {
            ReadStep::Frame
        }
    }

    /// A reader at the start of a stream of frames of `frame_len` bytes.
    pub fn new(frame_len: usize) -> (r: FrameReader)
        ensures
            r.wf(),
            r.spec_frame_len() == frame_len,
            r.spec_filled() == 0,
            !r.spec_ended(),
    {
        FrameReader { frame_len, filled: 0, ended: false }
    }

    /// Bytes in one frame.
    pub fn frame_len(&self) -> (r: usize)
        ensures
            r == self.spec_frame_len(),
    {
        self.frame_len
    }

    /// What to do next: read at the first unfilled byte of the frame; hand
    /// over a full frame; report that frames are empty (nothing is read for
    /// them); or stop once the stream has ended between frames.
    pub fn step(&self) -> (r: ReadStep)
        requires
            self.wf(),
        ensures
            r == Self::step_of(self.spec_frame_len(), self.spec_filled(), self.spec_ended()),
    {
        if self.ended {
            ReadStep::End
        } else if self.filled < self.frame_len {
            ReadStep::Read { offset: self.filled }
        } else if self.frame_len == 0 {
            ReadStep::Empty
        } else {
            ReadStep::Frame
        }
    }

    /// Records a read that returned `count` bytes. A read of nothing ends
    /// the stream when no byte of the frame had arrived, and is an error
    /// otherwise.
    pub fn record(&mut self, count: usize) -> (r: Result<(), TruncatedFrame>)
        requires
            old(self).wf(),
            !old(self).spec_ended(),
            old(self).spec_filled() < old(self).spec_frame_len(),
            count <= old(self).spec_frame_len() - old(self).spec_filled(),
        ensures
            final(self).wf(),
            final(self).spec_frame_len() == old(self).spec_frame_len(),
            count > 0 ==> r is Ok && final(self).spec_filled() == old(self).spec_filled() + count
                && !final(self).spec_ended(),
            count == 0 && old(self).spec_filled() == 0 ==> r is Ok && final(self).spec_ended()
                && final(self).spec_filled() == 0,
            count == 0 && old(self).spec_filled() > 0 ==> r == Err::<(), TruncatedFrame>(
                TruncatedFrame { filled: old(self).spec_filled() as usize },
            ) && final(self).spec_filled() == old(self).spec_filled() && !final(self).spec_ended(),
    {
        if count == 0 {
            if self.filled == 0 {
                self.ended = true;
                Ok(())
            } else {
                Err(TruncatedFrame { filled: self.filled })
            }
        } else {
            self.filled = self.filled + count;
            Ok(())
        }
    }

    /// Starts the next frame once a full frame has been handed over.
    pub fn next_frame(&mut self)
        requires
            old(self).wf(),
        ensures
            final(self).wf(),
            final(self).spec_frame_len() == old(self).spec_frame_len(),
            final(self).spec_filled() == 0,
            final(self).spec_ended() == old(self).spec_ended(),
    {
        self.filled = 0;
    }
}

/// Progress is reported after every this many frames.
pub const PROGRESS_EVERY: usize = 30;

/// Whether progress is reported once `frames` frames have been processed.
pub fn progress_due(frames: usize) -> (r: bool)
    ensures
        r == (frames % PROGRESS_EVERY == 0),
{
    frames % PROGRESS_EVERY == 0
}

} // verus!
