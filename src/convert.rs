//! The conversion pipeline: resized frames to cells, cells to keyframes or deltas on the
//! keyframe cadence, frames and audio into the writer.
use vstd::prelude::*;
use crate::delta::{FrameDiff, changed_cells, compute_delta, promotion_limit};
use crate::encode::{
    RsfxWriter, WriterState, finished_file, frame_appended, frame_fits, state_valid, with_audio,
    writer_start,
};
use crate::format::{Cell, FormatError, FrameType, cells_bytes, deltas_bytes};
use crate::halfblock::{halfblock_grid, pixels_to_cells};
use crate::resize::{FrameResizer, VideoFrame};

verus! {

/// Why a frame could not be converted.
#[derive(Clone, Copy, Debug, PartialEq, Eq, Structural)]
pub enum ConvertError {
    /// The frame's data is shorter than its size, or the resize failed.
    Resize,
    /// The writer refused the frame.
    Format(FormatError),
}

/// Whether frame `frame_num` must be a keyframe: every `keyframe_interval`-th frame,
/// starting with frame 0.
pub open spec fn forced_keyframe(frame_num: nat, keyframe_interval: u16) -> bool {
    frame_num % (keyframe_interval as nat) == 0
}

/// Whether a grid is written as a keyframe rather than as a delta against `prev`.
pub open spec fn is_keyframe(prev: Seq<Cell>, cells: Seq<Cell>, cols: u16, force: bool) -> bool {
    force || prev.len() == 0 || changed_cells(prev, cells, cols, cells.len()).len()
        > promotion_limit(cells.len())
}

/// The frame type and raw body a grid is written with.
pub open spec fn frame_body(prev: Seq<Cell>, cells: Seq<Cell>, cols: u16, force: bool) -> (
    FrameType,
    Seq<u8>,
) {
    if is_keyframe(prev, cells, cols, force) {
        (FrameType::Keyframe, cells_bytes(cells))
    } else {
        (FrameType::Delta, deltas_bytes(changed_cells(prev, cells, cols, cells.len())))
    }
}

/// Whether `after` is `before` with grid `g` written as the next frame against `prev`.
pub open spec fn grid_written(
    before: WriterState,
    after: WriterState,
    prev: Seq<Cell>,
    g: Seq<Cell>,
    cols: u16,
    force: bool,
) -> bool {
    let (t, body) = frame_body(prev, g, cols, force);
    frame_appended(before, after, t, body)
}

/// Whether the writer in state `before` refuses grid `g` as the next frame against `prev`.
pub open spec fn grid_refused(before: WriterState, prev: Seq<Cell>, g: Seq<Cell>, cols: u16, force: bool) -> bool {
    !frame_fits(before, frame_body(prev, g, cols, force).1)
}

/// Converts a stream of decoded frames into a file held in memory.
pub struct Converter {
    writer: RsfxWriter,
    resizer: FrameResizer,
    prev_cells: Vec<Cell>,
    frame_num: u32,
    cols: u16,
    rows: u16,
    keyframe_interval: u16,
}

impl Converter {
    pub closed spec fn writer_state(&self) -> WriterState {
        self.writer@
    }

    /// The grid of the last frame.
    pub closed spec fn prev(&self) -> Seq<Cell> {
        self.prev_cells@
    }

    /// The number of frames written.
    pub closed spec fn frames(&self) -> nat {
        self.frame_num as nat
    }

    pub closed spec fn cols(&self) -> u16 {
        self.cols
    }

    pub closed spec fn rows(&self) -> u16 {
        self.rows
    }

    pub closed spec fn interval(&self) -> u16 {
        self.keyframe_interval
    }

    pub closed spec fn wf(&self) -> bool {
        &&& state_valid(self.writer@)
        &&& self.frame_num == self.writer@.index.len()
        &&& self.keyframe_interval >= 1
        &&& self.resizer.width() == self.cols
        &&& self.resizer.height() == 2 * self.rows
        &&& self.cols * self.rows * 6 <= usize::MAX
        &&& self.prev_cells@.len() == 0 || self.prev_cells@.len() == self.cols * self.rows
    }

    /// Starts a file of `cols` by `rows` cells at `fps` frames per second.
    pub fn new(cols: u16, rows: u16, fps: u16, keyframe_interval: u16) -> (r: Self)
        requires
            keyframe_interval >= 1,
            cols * rows * 6 <= usize::MAX,
        ensures
            r.wf(),
            r.writer_state() == writer_start(cols, rows, fps, keyframe_interval),
            r.prev() == Seq::<Cell>::empty(),
            r.frames() == 0,
            r.cols() == cols,
            r.rows() == rows,
            r.interval() == keyframe_interval,
    {
        Converter {
            writer: RsfxWriter::new(cols, rows, fps, keyframe_interval),
            resizer: FrameResizer::new(cols, rows),
            prev_cells: Vec::new(),
            frame_num: 0,
            cols,
            rows,
            keyframe_interval,
        }
    }

    /// Writes a grid of `cols * rows` cells as the next frame: a keyframe on the cadence,
    /// when there is no previous grid or when too many cells changed; a delta otherwise.
    pub fn push_cells(&mut self, cells: Vec<Cell>) -> (r: Result<(), FormatError>)
        requires
            old(self).wf(),
            cells@.len() == old(self).cols() * old(self).rows(),
        ensures
            final(self).wf(),
            final(self).cols() == old(self).cols(),
            final(self).rows() == old(self).rows(),
            final(self).interval() == old(self).interval(),
            ({
                let force = forced_keyframe(old(self).frames(), old(self).interval());
                let (t, body) = frame_body(old(self).prev(), cells@, old(self).cols(), force);
                &&& r is Ok <==> frame_fits(old(self).writer_state(), body)
                &&& r is Ok ==> {
                    &&& frame_appended(old(self).writer_state(), final(self).writer_state(), t, body)
                    &&& final(self).prev() == cells@
                    &&& final(self).frames() == old(self).frames() + 1
                }
                &&& r is Err ==> {
                    &&& r == Err::<(), FormatError>(FormatError::TooLarge)
                    &&& final(self).writer_state() == old(self).writer_state()
                    &&& final(self).prev() == old(self).prev()
                    &&& final(self).frames() == old(self).frames()
                }
            }),
    {
        let force = self.frame_num % (self.keyframe_interval as u32) == 0;
        proof {
            assert(self.cols * self.rows <= self.cols * 65536) by (nonlinear_arith)
                requires
                    self.rows <= 65535,
                    self.cols >= 0,
            ;
        }
        let diff = compute_delta(self.prev_cells.as_slice(), cells.as_slice(), self.cols, force);
        let written = match diff {
            FrameDiff::Keyframe(k) => self.writer.write_keyframe(k.as_slice()),
            FrameDiff::Delta(d) => self.writer.write_delta(d.as_slice()),
        };
        match written {
            Ok(()) => {
                self.prev_cells = cells;
                self.frame_num = self.frame_num + 1;
                Ok(())
            },
            Err(e) => Err(e),
        }
    }

    /// Resizes a decoded frame, maps it to cells, and writes it as the next frame.
    pub fn push_frame(&mut self, frame: &VideoFrame) -> (r: Result<(), ConvertError>)
        requires
            old(self).wf(),
            frame.width * frame.height * 3 <= usize::MAX,
        ensures
            final(self).wf(),
            final(self).cols() == old(self).cols(),
            final(self).rows() == old(self).rows(),
            final(self).interval() == old(self).interval(),
            frame.data@.len() >= frame.width * frame.height * 3 ==> r != Err::<(), ConvertError>(
                ConvertError::Resize,
            ),
            r is Ok ==> final(self).frames() == old(self).frames() + 1,
            r is Ok ==> exists|g: Seq<Cell>|
                g.len() == old(self).cols() * old(self).rows() && final(self).prev() == g
                    && #[trigger] grid_written(
                    old(self).writer_state(),
                    final(self).writer_state(),
                    old(self).prev(),
                    g,
                    old(self).cols(),
                    forced_keyframe(old(self).frames(), old(self).interval()),
                ),
            frame.data@.len() < frame.width * frame.height * 3 ==> r == Err::<(), ConvertError>(
                ConvertError::Resize,
            ),
            r is Err ==> r == Err::<(), ConvertError>(ConvertError::Resize) || r == Err::<
                (),
                ConvertError,
            >(ConvertError::Format(FormatError::TooLarge)),
            r == Err::<(), ConvertError>(ConvertError::Format(FormatError::TooLarge)) ==> exists|
                g: Seq<Cell>,
            |
                g.len() == old(self).cols() * old(self).rows() && #[trigger] grid_refused(
                    old(self).writer_state(),
                    old(self).prev(),
                    g,
                    old(self).cols(),
                    forced_keyframe(old(self).frames(), old(self).interval()),
                ),
            r is Err ==> final(self).writer_state() == old(self).writer_state(),
            r is Err ==> final(self).frames() == old(self).frames(),
            r is Err ==> final(self).prev() == old(self).prev(),
            ({
                let w = old(self).cols() as u32;
                let h = 2 * old(self).rows();
                let cells = halfblock_grid(frame.data@, w, h as u32);
                let force = forced_keyframe(old(self).frames(), old(self).interval());
                let (t, body) = frame_body(old(self).prev(), cells, old(self).cols(), force);
                frame.width == w && frame.height == h && frame.data@.len() >= w * h * 3
                    ==> (r is Ok <==> frame_fits(old(self).writer_state(), body)) && (r is Ok
                    ==> frame_appended(old(self).writer_state(), final(self).writer_state(), t, body))
            }),
    {
        proof {
            assert(self.cols * (2 * self.rows) * 3 == self.cols * self.rows * 6) by (nonlinear_arith);
        }
        let resized = match self.resizer.resize(frame.data.as_slice(), frame.width, frame.height) {
            Some(v) => v,
            None => {
                return Err(ConvertError::Resize);
            },
        };
        let w = self.resizer.target_width();
        let h = self.resizer.target_height();
        if (resized.len() as u64) < w as u64 * h as u64 * 3 {
            return Err(ConvertError::Resize);
        }
        let cells = pixels_to_cells(resized.as_slice(), w, h);
        proof {
            assert(w * (h / 2) == self.cols * self.rows);
        }
        let ghost g = cells@;
        let ghost before = self.writer_state();
        let ghost prev = self.prev();
        let ghost force = forced_keyframe(self.frames(), self.interval());
        match self.push_cells(cells) {
            Ok(()) => {
                assert(grid_written(before, self.writer_state(), prev, g, self.cols(), force));
                assert(old(self).writer_state() == before);
                assert(old(self).prev() == prev);
                assert(g.len() == self.cols() * self.rows());
                assert(self.prev() == g);
                Ok(())
            },
            Err(e) => {
                assert(grid_refused(before, prev, g, self.cols(), force));
                assert(old(self).writer_state() == before);
                assert(old(self).prev() == prev);
                Err(ConvertError::Format(e))
            },
        }
    }

    /// Writes the audio blob: PCM s16le at `sample_rate`, `channels` channels.
    pub fn push_audio(&mut self, pcm: &[u8], sample_rate: u32, channels: u16)
        requires
            old(self).wf(),
        ensures
            final(self).wf(),
            final(self).writer_state() == with_audio(
                old(self).writer_state(),
                pcm@,
                sample_rate,
                channels,
            ),
            final(self).frames() == old(self).frames(),
    {
        self.writer.write_audio(pcm, sample_rate, channels);
    }

    /// The number of frames written.
    pub fn frame_count(&self) -> (r: u32)
        ensures
            r == self.frames(),
    {
        self.frame_num
    }

    /// Finishes the file and returns its bytes.
    pub fn finish(self) -> (r: Vec<u8>)
        requires
            self.wf(),
        ensures
            r@ == finished_file(self.writer_state()),
    {
        self.writer.finish()
    }
}

} // verus!
