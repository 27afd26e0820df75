//! Playback scheduling: audio-mastered lateness, and the frame step that keeps the
//! current grid correct when late frames are skipped.
use vstd::prelude::*;
use crate::delta::{FrameDiff, apply_cell, apply_deltas};
use crate::format::{Cell, DeltaCell, FrameType};
use crate::render::{deltas_render, keyframe_render, render_delta, render_keyframe};

verus! {

/// Frame `frame_idx` is late when its end time `(frame_idx + 1) / fps` lies before the
/// target time (in microseconds), and it is not the last frame. With
/// `fps = fps_num / fps_den` this is compared exactly, in integers.
pub open spec fn is_late(
    frame_idx: u64,
    frame_count: u64,
    fps_num: u16,
    fps_den: u16,
    target_us: u64,
) -> bool {
    &&& (frame_idx + 1) * fps_den * 1_000_000 < target_us * fps_num
    &&& frame_idx + 1 < frame_count
}

proof fn lemma_time_bounds(frame_idx: u64, fps_den: u16, target_us: u64, fps_num: u16)
    ensures
        (frame_idx + 1) * fps_den <= 0x1_0000_0000_0000_0000 * 0xffff,
        (frame_idx + 1) * fps_den * 1_000_000 <= 0x1_0000_0000_0000_0000 * 0xffff * 1_000_000,
        target_us * fps_num <= 0x1_0000_0000_0000_0000 * 0xffff,
{
    assert((frame_idx + 1) * fps_den <= 0x1_0000_0000_0000_0000 * 0xffff) by (nonlinear_arith)
        requires
            frame_idx + 1 <= 0x1_0000_0000_0000_0000,
            0 <= fps_den <= 0xffff,
    ;
    assert(target_us * fps_num <= 0x1_0000_0000_0000_0000 * 0xffff) by (nonlinear_arith)
        requires
            target_us <= 0x1_0000_0000_0000_0000,
            0 <= fps_num <= 0xffff,
    ;
}

/// Whether frame `frame_idx` is late at `target_us` microseconds since playback started.
pub fn frame_is_late(frame_idx: u64, frame_count: u64, fps_num: u16, fps_den: u16, target_us: u64) -> (r:
    bool)
    ensures
        r == is_late(frame_idx, frame_count, fps_num, fps_den, target_us),
{
    proof {
        lemma_time_bounds(frame_idx, fps_den, target_us, fps_num);
    }
    let end = (frame_idx as u128 + 1) * fps_den as u128 * 1_000_000;
    let now = target_us as u128 * fps_num as u128;
    end < now && (frame_idx as u128) + 1 < frame_count as u128
}

/// When frame `frame_idx` ends: `(frame_idx + 1) / fps` seconds, in whole microseconds.
pub open spec fn frame_end_us(frame_idx: u64, fps_num: u16, fps_den: u16) -> int {
    (frame_idx + 1) * fps_den * 1_000_000 / (fps_num as int)
}

/// The time, in microseconds since playback started, to wait for after frame `frame_idx`.
pub fn next_frame_due_us(frame_idx: u64, fps_num: u16, fps_den: u16) -> (r: u128)
    requires
        fps_num > 0,
    ensures
        r == frame_end_us(frame_idx, fps_num, fps_den),
{
    proof {
        lemma_time_bounds(frame_idx, fps_den, 0, fps_num);
    }
    (frame_idx as u128 + 1) * fps_den as u128 * 1_000_000 / fps_num as u128
}

/// What the player does with a frame.
#[derive(Clone, Copy, Debug, PartialEq, Eq, Structural)]
pub enum FrameAction {
    /// Late delta: dropped without decoding.
    Skip,
    /// Late keyframe: decoded into the current grid, not rendered.
    Install,
    /// On time: decoded, applied and rendered.
    Render,
}

pub open spec fn action_for(t: FrameType, late: bool) -> FrameAction {
    if !late {
        FrameAction::Render
    } else if t == FrameType::Keyframe {
        FrameAction::Install
    } else {
        FrameAction::Skip
    }
}

/// Decides what to do with a frame of type `t`: keyframes are always decoded, so that
/// later deltas apply to the right base; late deltas are dropped.
pub fn plan_frame(t: FrameType, late: bool) -> (r: FrameAction)
    ensures
        r == action_for(t, late),
{
    if !late {
        FrameAction::Render
    } else {
        match t {
            FrameType::Keyframe => FrameAction::Install,
            FrameType::Delta => FrameAction::Skip,
        }
    }
}

/// Applies delta cells to the grid in place; those whose position `y * cols + x`
/// lies outside the grid are ignored.
pub fn apply_delta(cells: &mut Vec<Cell>, deltas: &[DeltaCell], cols: u16)
    ensures
        final(cells)@ == apply_deltas(old(cells)@, deltas@, cols),
{
    let ghost start = cells@;
    let mut i: usize = 0;
    while i < deltas.len()
        invariant
            i <= deltas@.len(),
            cells@ == apply_deltas(start, deltas@.take(i as int), cols),
        decreases deltas@.len() - i,
    {
        let d = deltas[i];
        assert(d.y * cols <= 0xffff * 0xffff) by (nonlinear_arith)
            requires
                d.y <= 0xffff,
                cols <= 0xffff,
        ;
        let idx = d.y as u64 * cols as u64 + d.x as u64;
        if idx < cells.len() as u64 {
            cells.set(idx as usize, d.cell);
        }
        proof {
            let t = deltas@.take(i + 1);
            assert(t.drop_last() =~= deltas@.take(i as int));
            assert(cells@ =~= apply_cell(apply_deltas(start, deltas@.take(i as int), cols), d, cols));
        }
        i = i + 1;
    }
    assert(deltas@.take(i as int) =~= deltas@);
}

/// The grid after a frame: a keyframe replaces it, an on-time delta is applied to it,
/// a late delta leaves it as it is.
pub open spec fn step_grid(current: Seq<Cell>, frame: FrameDiff, late: bool, cols: u16) -> Seq<Cell> {
    match frame {
        FrameDiff::Keyframe(k) => k@,
        FrameDiff::Delta(d) => if late {
            current
        } else {
            apply_deltas(current, d@, cols)
        },
    }
}

/// Whether a decoded frame can be played on a `cols` by `rows` grid: a keyframe holds the
/// whole grid.
pub open spec fn playable(frame: FrameDiff, cols: u16, rows: u16) -> bool {
    match frame {
        FrameDiff::Keyframe(k) => k@.len() == cols * rows,
        FrameDiff::Delta(_) => true,
    }
}

/// Carries a decoded frame into the current grid and, unless it is late, renders it into
/// `buf`. Returns whether `buf` holds a render to write out.
pub fn play_frame(
    current: &mut Vec<Cell>,
    frame: FrameDiff,
    late: bool,
    cols: u16,
    rows: u16,
    buf: &mut Vec<u8>,
) -> (rendered: bool)
    requires
        playable(frame, cols, rows),
    ensures
        final(current)@ == step_grid(old(current)@, frame, late, cols),
        rendered == !late,
        !rendered ==> final(buf)@ == old(buf)@,
        rendered ==> match frame {
            FrameDiff::Keyframe(k) => final(buf)@ == keyframe_render(k@, cols, rows),
            FrameDiff::Delta(d) => final(buf)@ == deltas_render(d@),
        },
{
    match frame {
        FrameDiff::Keyframe(k) => {
            if !late {
                render_keyframe(k.as_slice(), cols, rows, buf);
            }
            *current = k;
        },
        FrameDiff::Delta(d) => {
            if !late {
                apply_delta(current, d.as_slice(), cols);
                render_delta(d.as_slice(), buf);
            }
        },
    }
    !late
}

/// An empty delta frame changes nothing in the grid, and renders as no bytes.
pub proof fn lemma_empty_delta_plays_nothing(
    current: Seq<Cell>,
    frame: FrameDiff,
    late: bool,
    cols: u16,
)
    requires
        frame matches FrameDiff::Delta(d) && d@.len() == 0,
    ensures
        step_grid(current, frame, late, cols) == current,
        frame matches FrameDiff::Delta(d) && deltas_render(d@) == Seq::<u8>::empty(),
{
}

/// The grid after the first `n` frames, starting from `init`.
pub open spec fn played(
    init: Seq<Cell>,
    frames: Seq<FrameDiff>,
    late: Seq<bool>,
    cols: u16,
    n: nat,
) -> Seq<Cell>
    decreases n,
{
    if n == 0 {
        init
    } else {
        step_grid(played(init, frames, late, cols, (n - 1) as nat), frames[n - 1], late[n - 1], cols)
    }
}

/// The grid of the most recent keyframe at or before frame `i`.
pub open spec fn last_keyframe(frames: Seq<FrameDiff>, i: int) -> Seq<Cell>
    decreases i + 1,
{
    if i < 0 {
        Seq::empty()
    } else {
        match frames[i] {
            FrameDiff::Keyframe(k) => k@,
            FrameDiff::Delta(_) => last_keyframe(frames, i - 1),
        }
    }
}

/// When frame 0 is a keyframe (as the keyframe cadence makes it) and every delta frame
/// is skipped, the grid after frame `i` is that of the most recent keyframe at or before
/// `i`.
pub proof fn lemma_skipped_deltas_keep_keyframe(
    init: Seq<Cell>,
    frames: Seq<FrameDiff>,
    late: Seq<bool>,
    cols: u16,
    i: int,
)
    requires
        0 <= i < frames.len(),
        late.len() == frames.len(),
        frames[0] is Keyframe,
        forall|j: int| 0 <= j <= i && #[trigger] frames[j] is Delta ==> late[j],
    ensures
        played(init, frames, late, cols, (i + 1) as nat) == last_keyframe(frames, i),
    decreases i,
{
    if i > 0 {
        lemma_skipped_deltas_keep_keyframe(init, frames, late, cols, i - 1);
    }
}

} // verus!
