//! The live renderer's decisions: which messages count, and how each frame is diffed
//! against the previous one and rendered.
use vstd::prelude::*;
use crate::audio::{pcm_samples, samples_of};
use crate::delta::{FrameDiff, changed_cells, compute_delta, promotion_limit};
use crate::format::Cell;
use crate::halfblock::{halfblock_grid, pixels_to_cells};
use crate::protocol::{ControlCmd, Message, MessageView, message_wf};
use crate::render::{deltas_render, keyframe_render, render_delta, render_keyframe};

verus! {

/// What the caller does after a message has been handled.
pub enum LiveAction {
    /// Nothing.
    Ignore,
    /// The producer is ready: enter render mode.
    Ready,
    /// Write the render buffer to the terminal.
    Draw,
    /// Queue these samples for the audio device.
    PlayAudio(Vec<i16>),
    /// The producer asked to stop.
    Stop,
}

/// The render of a frame grid against the previous grid: a keyframe when forced, when
/// there is no previous grid or when too many cells changed; the changed cells otherwise.
pub open spec fn live_render(prev: Seq<Cell>, grid: Seq<Cell>, cols: u16, rows: u16, force: bool) -> Seq<
    u8,
> {
    let ds = changed_cells(prev, grid, cols, grid.len());
    if force || prev.len() == 0 || ds.len() > promotion_limit(grid.len()) {
        keyframe_render(grid, cols, rows)
    } else {
        deltas_render(ds)
    }
}

/// State of a live rendering session.
pub struct LiveSession {
    ready: bool,
    prev_cells: Vec<Cell>,
    frame_count: u64,
}

impl LiveSession {
    /// Whether the producer has sent Ready.
    pub closed spec fn is_ready(&self) -> bool {
        self.ready
    }

    /// The grid of the last frame.
    pub closed spec fn prev(&self) -> Seq<Cell> {
        self.prev_cells@
    }

    /// The number of frames rendered.
    pub closed spec fn frames(&self) -> u64 {
        self.frame_count
    }

    pub fn new() -> (r: Self)
        ensures
            !r.is_ready(),
            r.prev() == Seq::<Cell>::empty(),
            r.frames() == 0,
    {
        LiveSession { ready: false, prev_cells: Vec::new(), frame_count: 0 }
    }

    pub fn is_ready_now(&self) -> (r: bool)
        ensures
            r == self.is_ready(),
    {
        self.ready
    }

    /// Handles one message. Until Ready arrives every other message is discarded. After
    /// it, a frame is mapped to cells, diffed against the previous frame (a keyframe on
    /// the first frame and whenever the grid size changes) and rendered into `buf`; audio
    /// is decoded to samples; Stop ends the session.
    pub fn handle(&mut self, msg: Message, buf: &mut Vec<u8>) -> (r: LiveAction)
        requires
            message_wf(msg@),
        ensures
            !(r is Draw) ==> final(buf)@ == old(buf)@,
            !old(self).is_ready() ==> {
                &&& final(self).prev() == old(self).prev()
                &&& final(self).frames() == old(self).frames()
                &&& if msg@ == MessageView::Control(ControlCmd::Ready) {
                    r is Ready && final(self).is_ready()
                } else {
                    r is Ignore && !final(self).is_ready()
                }
            },
            old(self).is_ready() ==> final(self).is_ready(),
            old(self).is_ready() ==> match msg@ {
                MessageView::Frame { width, height, rgb_data, .. } => {
                    let grid = halfblock_grid(rgb_data, width as u32, height as u32);
                    let force = old(self).frames() == 0 || old(self).prev().len() != grid.len();
                    &&& r is Draw
                    &&& final(self).prev() == grid
                    &&& final(self).frames() == if old(self).frames() < u64::MAX {
                        (old(self).frames() + 1) as u64
                    } else {
                        old(self).frames()
                    }
                    &&& final(buf)@ == live_render(
                        old(self).prev(),
                        grid,
                        width,
                        (height / 2) as u16,
                        force,
                    )
                },
                MessageView::Audio(pcm) => {
                    &&& final(self).prev() == old(self).prev()
                    &&& final(self).frames() == old(self).frames()
                    &&& match r {
                        LiveAction::PlayAudio(s) => s@ == samples_of(pcm),
                        _ => false,
                    }
                },
                MessageView::Control(c) => {
                    &&& final(self).prev() == old(self).prev()
                    &&& final(self).frames() == old(self).frames()
                    &&& if c == ControlCmd::Stop {
                        r is Stop
                    } else {
                        r is Ignore
                    }
                },
            },
    {
        if !self.ready {
            match msg {
                Message::Control(ControlCmd::Ready) => {
                    self.ready = true;
                    return LiveAction::Ready;
                },
                _ => {
                    return LiveAction::Ignore;
                },
            }
        }
        match msg {
            Message::Frame { width, height, timestamp_us: _, rgb_data } => {
                let cells = pixels_to_cells(rgb_data.as_slice(), width as u32, height as u32);
                let cell_rows = (height / 2) as u16;
                proof {
                    assert(width * (height / 2) <= width * 65536) by (nonlinear_arith)
                        requires
                            height / 2 <= 65536,
                            width >= 0,
                    ;
                }
                let force = self.frame_count == 0 || self.prev_cells.len() != cells.len();
                let diff = compute_delta(self.prev_cells.as_slice(), cells.as_slice(), width, force);
                match diff {
                    FrameDiff::Keyframe(k) => {
                        render_keyframe(k.as_slice(), width, cell_rows, buf);
                    },
                    FrameDiff::Delta(d) => {
                        render_delta(d.as_slice(), buf);
                    },
                }
                self.prev_cells = cells;
                if self.frame_count < u64::MAX {
                    self.frame_count = self.frame_count + 1;
                }
                LiveAction::Draw
            },
            Message::Audio(pcm) => LiveAction::PlayAudio(pcm_samples(pcm.as_slice())),
            Message::Control(ControlCmd::Stop) => LiveAction::Stop,
            Message::Control(_) => LiveAction::Ignore,
        }
    }
}

} // verus!
