//! Random-access reader of the container format.
use vstd::prelude::*;
use crate::compress::{
    decompress, decompressible, is_decompressible, lz4_decompressed, max_compressed_len,
};
use crate::encode::{
    WriterState, finished_file, final_header, frame_appended, frame_stored, index_bytes, payload,
    state_valid, with_frame, writer_start,
};
use crate::format::{
    Cell, DeltaCell, FormatError, FrameIndexEntry, FrameType, RsfxHeader, HEADER_SIZE, cells_bytes,
    cells_of, deltas_bytes, deltas_of, entry_at, entry_bytes, header_bytes,
    lemma_cells_bytes, lemma_cells_round_trip, lemma_deltas_bytes, lemma_deltas_round_trip,
    lemma_entry_at, lemma_header_round_trip, parse_header, to_array,
};
use crate::le::{read_u32, read_u64};
use vstd::arithmetic::div_mod::lemma_fundamental_div_mod;
use vstd::arithmetic::mul::lemma_mul_upper_bound;

verus! {

/// The `n` index entries stored from `off` on.
pub open spec fn index_of(b: Seq<u8>, off: int, n: nat) -> Seq<FrameIndexEntry> {
    Seq::new(n, |i: int| entry_at(b, off + 16 * i))
}

/// What opening a file gives: its header and its frame index.
pub open spec fn open_file(b: Seq<u8>) -> Result<(RsfxHeader, Seq<FrameIndexEntry>), FormatError> {
    if b.len() < HEADER_SIZE {
        Err(FormatError::Truncated)
    } else {
        match parse_header(b.subrange(0, HEADER_SIZE as int)) {
            Err(e) => Err(e),
            Ok(h) => if h.index_offset + 16 * h.frame_count > b.len() {
                Err(FormatError::Truncated)
            } else {
                Ok((h, index_of(b, h.index_offset as int, h.frame_count as nat)))
            },
        }
    }
}

/// The decompressed body of frame `i`.
pub open spec fn frame_raw(b: Seq<u8>, index: Seq<FrameIndexEntry>, i: int) -> Result<
    Seq<u8>,
    FormatError,
> {
    if i < 0 || i >= index.len() {
        Err(FormatError::IndexOutOfRange(i as usize))
    } else if index[i].offset + index[i].compressed_size > b.len() {
        Err(FormatError::Truncated)
    } else if !decompressible(payload(b, index[i])) {
        Err(FormatError::TooLarge)
    } else {
        match lz4_decompressed(payload(b, index[i])) {
            None => Err(FormatError::CorruptFrame(i as usize)),
            Some(raw) => Ok(raw),
        }
    }
}

/// The cells of a keyframe body, which must hold exactly `cols * rows` cells.
pub open spec fn keyframe_of(raw: Seq<u8>, cols: u16, rows: u16, i: int) -> Result<
    Seq<Cell>,
    FormatError,
> {
    if raw.len() != cols * rows * 6 {
        Err(FormatError::CorruptFrame(i as usize))
    } else {
        Ok(cells_of(raw))
    }
}

/// The delta cells of a delta body, whose length must be a multiple of ten.
pub open spec fn delta_of(raw: Seq<u8>, i: int) -> Result<Seq<DeltaCell>, FormatError> {
    if raw.len() % 10 != 0 {
        Err(FormatError::CorruptFrame(i as usize))
    } else {
        Ok(deltas_of(raw))
    }
}

/// Frame `i` of a file read as a keyframe.
pub open spec fn keyframe_read(
    b: Seq<u8>,
    h: RsfxHeader,
    index: Seq<FrameIndexEntry>,
    i: int,
) -> Result<Seq<Cell>, FormatError> {
    match frame_raw(b, index, i) {
        Err(e) => Err(e),
        Ok(raw) => keyframe_of(raw, h.cols, h.rows, i),
    }
}

/// Frame `i` of a file read as a delta.
pub open spec fn delta_read(b: Seq<u8>, index: Seq<FrameIndexEntry>, i: int) -> Result<
    Seq<DeltaCell>,
    FormatError,
> {
    match frame_raw(b, index, i) {
        Err(e) => Err(e),
        Ok(raw) => delta_of(raw, i),
    }
}

/// The audio blob the header points to; empty when its length is zero.
pub open spec fn audio_read(b: Seq<u8>, h: RsfxHeader) -> Result<Seq<u8>, FormatError> {
    if h.audio_length == 0 {
        Ok(Seq::empty())
    } else if h.audio_offset + h.audio_length > b.len() {
        Err(FormatError::Truncated)
    } else {
        Ok(b.subrange(h.audio_offset as int, h.audio_offset + h.audio_length))
    }
}

/// Whether `[off, off + len)` lies within `n` bytes.
fn in_bounds(off: u64, len: u64, n: usize) -> (r: bool)
    ensures
        r == (off + len <= n),
{
    (n as u64) >= off && (n as u64) - off >= len
}

/// Decodes a decompressed keyframe body of `cols * rows` cells.
pub fn decode_keyframe(raw: &[u8], cols: u16, rows: u16, frame_idx: usize) -> (r: Result<
    Vec<Cell>,
    FormatError,
>)
    ensures
        match r {
            Ok(v) => keyframe_of(raw@, cols, rows, frame_idx as int) == Ok::<
                Seq<Cell>,
                FormatError,
            >(v@),
            Err(e) => keyframe_of(raw@, cols, rows, frame_idx as int) == Err::<
                Seq<Cell>,
                FormatError,
            >(e),
        },
{
    proof {
        lemma_mul_upper_bound(cols as int, 0xffff, rows as int, 0xffff);
    }
    let expected = cols as u64 * rows as u64 * 6;
    if raw.len() as u64 != expected {
        return Err(FormatError::CorruptFrame(frame_idx));
    }
    let count = raw.len() / 6;
    proof {
        lemma_fundamental_div_mod(raw@.len() as int, 6);
    }
    let mut cells: Vec<Cell> = Vec::new();
    let mut i: usize = 0;
    while i < count
        invariant
            count == raw@.len() / 6,
            raw@.len() <= usize::MAX,
            6 * count <= raw@.len(),
            i <= count,
            cells@ == cells_of(raw@).take(i as int),
        decreases count - i,
    {
        let c = Cell::from_bytes(&raw[i * 6..i * 6 + 6]);
        cells.push(c);
        i = i + 1;
        assert(cells@ =~= cells_of(raw@).take(i as int));
    }
    assert(cells_of(raw@).take(i as int) =~= cells_of(raw@));
    Ok(cells)
}

/// Decodes a decompressed delta body.
pub fn decode_delta(raw: &[u8], frame_idx: usize) -> (r: Result<Vec<DeltaCell>, FormatError>)
    ensures
        match r {
            Ok(v) => delta_of(raw@, frame_idx as int) == Ok::<Seq<DeltaCell>, FormatError>(v@),
            Err(e) => delta_of(raw@, frame_idx as int) == Err::<Seq<DeltaCell>, FormatError>(e),
        },
{
    if raw.len() % 10 != 0 {
        return Err(FormatError::CorruptFrame(frame_idx));
    }
    let count = raw.len() / 10;
    proof {
        lemma_fundamental_div_mod(raw@.len() as int, 10);
    }
    let mut deltas: Vec<DeltaCell> = Vec::new();
    let mut i: usize = 0;
    while i < count
        invariant
            count == raw@.len() / 10,
            raw@.len() <= usize::MAX,
            10 * count <= raw@.len(),
            i <= count,
            deltas@ == deltas_of(raw@).take(i as int),
        decreases count - i,
    {
        let d = DeltaCell::from_bytes(&raw[i * 10..i * 10 + 10]);
        deltas.push(d);
        i = i + 1;
        assert(deltas@ =~= deltas_of(raw@).take(i as int));
    }
    assert(deltas_of(raw@).take(i as int) =~= deltas_of(raw@));
    Ok(deltas)
}

/// Reads .rsfx files held in memory.
pub struct RsfxReader {
    /// The bytes of the file.
    pub data: Vec<u8>,
    pub header: RsfxHeader,
    pub index: Vec<FrameIndexEntry>,
}

impl RsfxReader {
    /// The bytes of the file.
    pub open spec fn source(&self) -> Seq<u8> {
        self.data@
    }

    /// Opens a file: parses the header and the frame index.
    pub fn new(data: Vec<u8>) -> (r: Result<Self, FormatError>)
        ensures
            match r {
                Ok(rd) => rd.source() == data@ && rd.index@.len() == rd.header.frame_count
                    && open_file(data@) == Ok::<
                    (RsfxHeader, Seq<FrameIndexEntry>),
                    FormatError,
                >((rd.header, rd.index@)),
                Err(e) => open_file(data@) == Err::<(RsfxHeader, Seq<FrameIndexEntry>), FormatError>(
                    e,
                ),
            },
    {
        if data.len() < HEADER_SIZE {
            return Err(FormatError::Truncated);
        }
        let hb: [u8; HEADER_SIZE] = to_array(&data.as_slice()[0..HEADER_SIZE]);
        let header = match RsfxHeader::from_bytes(&hb) {
            Ok(h) => h,
            Err(e) => {
                return Err(e);
            },
        };
        let count = header.frame_count as u64;
        if !in_bounds(header.index_offset, 16 * count, data.len()) {
            return Err(FormatError::Truncated);
        }
        let base = header.index_offset as usize;
        let n = header.frame_count as usize;
        let mut index: Vec<FrameIndexEntry> = Vec::new();
        let mut i: usize = 0;
        while i < n
            invariant
                n == header.frame_count,
                base == header.index_offset,
                base + 16 * n <= data@.len(),
                data@.len() <= usize::MAX,
                i <= n,
                index@ =~= index_of(data@, base as int, n as nat).take(i as int),
            decreases n - i,
        {
            let off = base + 16 * i;
            let e = FrameIndexEntry {
                offset: read_u64(data.as_slice(), off),
                compressed_size: read_u32(data.as_slice(), off + 8),
                frame_type: FrameType::from_u8(data[off + 12]),
            };
            index.push(e);
            i = i + 1;
            assert(index@ =~= index_of(data@, base as int, n as nat).take(i as int));
        }
        assert(index@ =~= index_of(data@, base as int, n as nat));
        Ok(RsfxReader { data, header, index })
    }

    /// Reads and decompresses a single frame. Returns raw bytes.
    pub fn read_frame_raw(&self, frame_idx: usize) -> (r: Result<Vec<u8>, FormatError>)
        ensures
            match r {
                Ok(v) => frame_raw(self.source(), self.index@, frame_idx as int) == Ok::<
                    Seq<u8>,
                    FormatError,
                >(v@),
                Err(e) => frame_raw(self.source(), self.index@, frame_idx as int) == Err::<
                    Seq<u8>,
                    FormatError,
                >(e),
            },
    {
        if frame_idx >= self.index.len() {
            return Err(FormatError::IndexOutOfRange(frame_idx));
        }
        let e = self.index[frame_idx];
        if !in_bounds(e.offset, e.compressed_size as u64, self.data.len()) {
            return Err(FormatError::Truncated);
        }
        let start = e.offset as usize;
        let end = start + e.compressed_size as usize;
        let compressed = &self.data.as_slice()[start..end];
        if !is_decompressible(compressed) {
            return Err(FormatError::TooLarge);
        }
        match decompress(compressed) {
            Some(raw) => Ok(raw),
            None => Err(FormatError::CorruptFrame(frame_idx)),
        }
    }

    /// Reads a keyframe as a cell grid of `cols * rows` cells.
    pub fn read_keyframe(&self, frame_idx: usize) -> (r: Result<Vec<Cell>, FormatError>)
        ensures
            match r {
                Ok(v) => keyframe_read(self.source(), self.header, self.index@, frame_idx as int)
                    == Ok::<Seq<Cell>, FormatError>(v@),
                Err(e) => keyframe_read(self.source(), self.header, self.index@, frame_idx as int)
                    == Err::<Seq<Cell>, FormatError>(e),
            },
    {
        let raw = self.read_frame_raw(frame_idx)?;
        decode_keyframe(raw.as_slice(), self.header.cols, self.header.rows, frame_idx)
    }

    /// Reads a delta frame as a list of delta cells.
    pub fn read_delta(&self, frame_idx: usize) -> (r: Result<Vec<DeltaCell>, FormatError>)
        ensures
            match r {
                Ok(v) => delta_read(self.source(), self.index@, frame_idx as int) == Ok::<
                    Seq<DeltaCell>,
                    FormatError,
                >(v@),
                Err(e) => delta_read(self.source(), self.index@, frame_idx as int) == Err::<
                    Seq<DeltaCell>,
                    FormatError,
                >(e),
            },
    {
        let raw = self.read_frame_raw(frame_idx)?;
        decode_delta(raw.as_slice(), frame_idx)
    }

    /// Reads the audio PCM data; empty when the file has none.
    pub fn read_audio(&self) -> (r: Result<Vec<u8>, FormatError>)
        ensures
            match r {
                Ok(v) => audio_read(self.source(), self.header) == Ok::<Seq<u8>, FormatError>(v@),
                Err(e) => audio_read(self.source(), self.header) == Err::<Seq<u8>, FormatError>(e),
            },
    {
        if self.header.audio_length == 0 {
            return Ok(Vec::new());
        }
        if !in_bounds(self.header.audio_offset, self.header.audio_length, self.data.len()) {
            return Err(FormatError::Truncated);
        }
        let start = self.header.audio_offset as usize;
        let end = start + self.header.audio_length as usize;
        let mut out: Vec<u8> = Vec::new();
        out.extend_from_slice(&self.data.as_slice()[start..end]);
        assert(out@ =~= self.data@.subrange(start as int, end as int));
        Ok(out)
    }

    pub fn frame_type(&self, frame_idx: usize) -> (r: FrameType)
        requires
            frame_idx < self.index@.len(),
        ensures
            r == self.index@[frame_idx as int].frame_type,
    {
        self.index[frame_idx].frame_type
    }

    pub fn frame_count(&self) -> (r: u32)
        ensures
            r == self.header.frame_count,
    {
        self.header.frame_count
    }
}

pub proof fn lemma_index_bytes(s: Seq<FrameIndexEntry>)
    ensures
        index_bytes(s).len() == 16 * s.len(),
        forall|i: int|
            0 <= i < s.len() ==> #[trigger] index_bytes(s).subrange(16 * i, 16 * i + 16)
                == entry_bytes(s[i]),
    decreases s.len(),
{
    if s.len() > 0 {
        let p = s.drop_last();
        lemma_index_bytes(p);
        let b = index_bytes(s);
        assert forall|i: int| 0 <= i < s.len() implies #[trigger] b.subrange(16 * i, 16 * i + 16)
            == entry_bytes(s[i]) by {
            if i < p.len() {
                assert(b.subrange(16 * i, 16 * i + 16) =~= index_bytes(p).subrange(
                    16 * i,
                    16 * i + 16,
                ));
            } else {
                assert(b.subrange(16 * i, 16 * i + 16) =~= entry_bytes(s.last()));
            }
        }
    }
}

/// Opening a finished file gives the header as rewritten on finishing, and the
/// index entries of the frames written, in order.
pub proof fn lemma_open_finished(w: WriterState)
    requires
        state_valid(w),
        finished_file(w).len() <= u64::MAX,
    ensures
        open_file(finished_file(w)) == Ok::<(RsfxHeader, Seq<FrameIndexEntry>), FormatError>(
            (final_header(w), w.index),
        ),
{
    let h = final_header(w);
    let f = finished_file(w);
    let n = w.index.len();
    lemma_header_round_trip(h);
    lemma_index_bytes(w.index);
    let hb = header_bytes(h);
    let mid = w.sink.subrange(HEADER_SIZE as int, w.sink.len() as int);
    let ib = index_bytes(w.index);
    assert(f.len() == w.sink.len() + 16 * n);
    assert(f.subrange(0, HEADER_SIZE as int) =~= hb);
    assert(h.index_offset == w.sink.len());
    assert(h.frame_count == n);
    assert forall|i: int| 0 <= i < n implies entry_at(f, w.sink.len() + 16 * i) == w.index[i] by {
        assert(f.subrange(w.sink.len() + 16 * i, w.sink.len() + 16 * i + 16) =~= ib.subrange(
            16 * i,
            16 * i + 16,
        ));
        lemma_entry_at(f, w.sink.len() + 16 * i, w.index[i]);
    }
    assert(index_of(f, h.index_offset as int, h.frame_count as nat) =~= w.index);
}

/// Every frame a writer recorded reads back from the finished file as its raw body.
pub proof fn lemma_frame_read_back(w: WriterState, i: int)
    requires
        state_valid(w),
        0 <= i < w.index.len(),
        finished_file(w).len() <= u64::MAX,
    ensures
        frame_raw(finished_file(w), w.index, i) == Ok::<Seq<u8>, FormatError>(w.bodies[i]),
{
    let f = finished_file(w);
    let e = w.index[i];
    assert(frame_stored(w, i));
    lemma_header_round_trip(final_header(w));
    assert(payload(f, e) =~= payload(w.sink, e));
}

/// A grid of `cols * rows` cells written as frame `i` reads back from the finished file
/// as that grid.
pub proof fn lemma_keyframe_read_back(w: WriterState, i: int, grid: Seq<Cell>)
    requires
        state_valid(w),
        0 <= i < w.index.len(),
        finished_file(w).len() <= u64::MAX,
        w.bodies[i] == cells_bytes(grid),
        grid.len() == w.header.cols * w.header.rows,
    ensures
        keyframe_read(finished_file(w), final_header(w), w.index, i) == Ok::<
            Seq<Cell>,
            FormatError,
        >(grid),
{
    lemma_frame_read_back(w, i);
    lemma_cells_bytes(grid);
    lemma_cells_round_trip(grid);
}

/// A delta list written as frame `i` reads back from the finished file as that list; an
/// empty list reads back empty.
pub proof fn lemma_delta_read_back(w: WriterState, i: int, deltas: Seq<DeltaCell>)
    requires
        state_valid(w),
        0 <= i < w.index.len(),
        finished_file(w).len() <= u64::MAX,
        w.bodies[i] == deltas_bytes(deltas),
    ensures
        delta_read(finished_file(w), w.index, i) == Ok::<Seq<DeltaCell>, FormatError>(deltas),
{
    lemma_frame_read_back(w, i);
    lemma_deltas_bytes(deltas);
    lemma_deltas_round_trip(deltas);
    assert(deltas_bytes(deltas).len() % 10 == 0);
}

/// A keyframe grid and a delta list written in sequence read back bit-exactly: frame 0
/// as a keyframe holding the grid, frame 1 as a delta holding the list.
pub proof fn lemma_round_trip(
    w1: WriterState,
    w: WriterState,
    cols: u16,
    rows: u16,
    fps: u16,
    keyframe_interval: u16,
    grid: Seq<Cell>,
    deltas: Seq<DeltaCell>,
)
    requires
        frame_appended(
            writer_start(cols, rows, fps, keyframe_interval),
            w1,
            FrameType::Keyframe,
            cells_bytes(grid),
        ),
        frame_appended(w1, w, FrameType::Delta, deltas_bytes(deltas)),
        state_valid(w),
        grid.len() == cols * rows,
        finished_file(w).len() <= u64::MAX,
    ensures
        open_file(finished_file(w)) == Ok::<(RsfxHeader, Seq<FrameIndexEntry>), FormatError>(
            (final_header(w), w.index),
        ),
        final_header(w).frame_count == 2,
        w.index[0].frame_type == FrameType::Keyframe,
        w.index[1].frame_type == FrameType::Delta,
        keyframe_read(finished_file(w), final_header(w), w.index, 0) == Ok::<
            Seq<Cell>,
            FormatError,
        >(grid),
        delta_read(finished_file(w), w.index, 1) == Ok::<Seq<DeltaCell>, FormatError>(deltas),
{
    let w0 = writer_start(cols, rows, fps, keyframe_interval);
    let c0 = choose|c: Seq<u8>|
        lz4_decompressed(c) == Some(cells_bytes(grid)) && c.len() <= max_compressed_len(
            cells_bytes(grid).len() as int,
        ) && w1 == #[trigger] with_frame(w0, FrameType::Keyframe, cells_bytes(grid), c);
    let c1 = choose|c: Seq<u8>|
        lz4_decompressed(c) == Some(deltas_bytes(deltas)) && c.len() <= max_compressed_len(
            deltas_bytes(deltas).len() as int,
        ) && w == #[trigger] with_frame(w1, FrameType::Delta, deltas_bytes(deltas), c);
    assert(w1 == with_frame(w0, FrameType::Keyframe, cells_bytes(grid), c0));
    assert(w == with_frame(w1, FrameType::Delta, deltas_bytes(deltas), c1));
    lemma_open_finished(w);
    lemma_frame_read_back(w, 0);
    lemma_frame_read_back(w, 1);
    lemma_cells_bytes(grid);
    lemma_deltas_bytes(deltas);
    lemma_cells_round_trip(grid);
    lemma_deltas_round_trip(deltas);
    assert(w.bodies[0] == cells_bytes(grid));
    assert(w.bodies[1] == deltas_bytes(deltas));
    assert(deltas_bytes(deltas).len() % 10 == 0);
}

} // verus!
