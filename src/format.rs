//! Byte layout of cells, delta cells, the file header and the frame index.
use vstd::prelude::*;
use crate::le::{
    le_u16_bytes, le_u32_bytes, le_u64_bytes, u16_at, u32_at, u64_at, lemma_u16_at, lemma_u32_at,
    lemma_u64_at, read_u16, read_u32, read_u64, push_u16, push_u32, push_u64,
};

verus! {

pub const VERSION: u16 = 1;

pub const HEADER_SIZE: usize = 64;

/// A single terminal cell: background color (top pixel) + foreground color (bottom pixel).
#[derive(Clone, Copy, Debug, PartialEq, Eq, Structural)]
pub struct Cell {
    /// Top pixel (background color)
    pub bg_r: u8,
    pub bg_g: u8,
    pub bg_b: u8,
    /// Bottom pixel (foreground color)
    pub fg_r: u8,
    pub fg_g: u8,
    pub fg_b: u8,
}

/// The six bytes of a cell: background then foreground, red first.
pub open spec fn cell_bytes(c: Cell) -> Seq<u8> {
    seq![c.bg_r, c.bg_g, c.bg_b, c.fg_r, c.fg_g, c.fg_b]
}

/// The cell whose six bytes start at `off`.
pub open spec fn cell_at(b: Seq<u8>, off: int) -> Cell {
    Cell {
        bg_r: b[off],
        bg_g: b[off + 1],
        bg_b: b[off + 2],
        fg_r: b[off + 3],
        fg_g: b[off + 4],
        fg_b: b[off + 5],
    }
}

impl Cell {
    pub const SIZE: usize = 6;

    pub fn to_bytes(&self) -> (r: [u8; 6])
        ensures
            r@ == cell_bytes(*self),
    {
        let r = [self.bg_r, self.bg_g, self.bg_b, self.fg_r, self.fg_g, self.fg_b];
        assert(r@ =~= cell_bytes(*self));
        r
    }

    pub fn from_bytes(b: &[u8]) -> (r: Self)
        requires
            b@.len() >= 6,
        ensures
            r == cell_at(b@, 0),
    {
        Cell { bg_r: b[0], bg_g: b[1], bg_b: b[2], fg_r: b[3], fg_g: b[4], fg_b: b[5] }
    }
}

/// A changed cell in a delta frame: position + new cell data.
#[derive(Clone, Copy, Debug, PartialEq, Eq, Structural)]
pub struct DeltaCell {
    pub x: u16,
    pub y: u16,
    pub cell: Cell,
}

/// The ten bytes of a delta cell: x, y (little-endian), then the cell.
pub open spec fn delta_bytes(d: DeltaCell) -> Seq<u8> {
    le_u16_bytes(d.x) + le_u16_bytes(d.y) + cell_bytes(d.cell)
}

/// The delta cell whose ten bytes start at `off`.
pub open spec fn delta_at(b: Seq<u8>, off: int) -> DeltaCell {
    DeltaCell { x: u16_at(b, off), y: u16_at(b, off + 2), cell: cell_at(b, off + 4) }
}

impl DeltaCell {
    pub const SIZE: usize = 10;

    pub fn to_bytes(&self) -> (r: [u8; 10])
        ensures
            r@ == delta_bytes(*self),
    {
        let c = self.cell;
        let r = [
            self.x as u8,
            (self.x >> 8u16) as u8,
            self.y as u8,
            (self.y >> 8u16) as u8,
            c.bg_r,
            c.bg_g,
            c.bg_b,
            c.fg_r,
            c.fg_g,
            c.fg_b,
        ];
        assert(r@ =~= delta_bytes(*self));
        r
    }

    pub fn from_bytes(b: &[u8]) -> (r: Self)
        requires
            b@.len() >= 10,
        ensures
            r == delta_at(b@, 0),
    {
        let x = read_u16(b, 0);
        let y = read_u16(b, 2);
        let cell = Cell {
            bg_r: b[4],
            bg_g: b[5],
            bg_b: b[6],
            fg_r: b[7],
            fg_g: b[8],
            fg_b: b[9],
        };
        DeltaCell { x, y, cell }
    }
}

/// Reading a cell back from where its bytes stand gives the cell.
pub proof fn lemma_cell_at(b: Seq<u8>, off: int, c: Cell)
    requires
        0 <= off,
        off + 6 <= b.len(),
        b.subrange(off, off + 6) == cell_bytes(c),
    ensures
        cell_at(b, off) == c,
{
    let s = b.subrange(off, off + 6);
    assert(b[off] == s[0] && b[off + 1] == s[1] && b[off + 2] == s[2]);
    assert(b[off + 3] == s[3] && b[off + 4] == s[4] && b[off + 5] == s[5]);
}

/// Reading a delta cell back from where its bytes stand gives the delta cell.
pub proof fn lemma_delta_at(b: Seq<u8>, off: int, d: DeltaCell)
    requires
        0 <= off,
        off + 10 <= b.len(),
        b.subrange(off, off + 10) == delta_bytes(d),
    ensures
        delta_at(b, off) == d,
{
    let s = b.subrange(off, off + 10);
    assert(b.subrange(off, off + 2) =~= s.subrange(0, 2));
    assert(s.subrange(0, 2) =~= le_u16_bytes(d.x));
    assert(b.subrange(off + 2, off + 4) =~= s.subrange(2, 4));
    assert(s.subrange(2, 4) =~= le_u16_bytes(d.y));
    assert(b.subrange(off + 4, off + 10) =~= s.subrange(4, 10));
    assert(s.subrange(4, 10) =~= cell_bytes(d.cell));
    lemma_u16_at(b, off, d.x);
    lemma_u16_at(b, off + 2, d.y);
    lemma_cell_at(b, off + 4, d.cell);
}

/// The raw body of a keyframe: its cells' bytes, concatenated in order.
pub open spec fn cells_bytes(s: Seq<Cell>) -> Seq<u8>
    decreases s.len(),
{
    if s.len() == 0 {
        Seq::empty()
    } else {
        cells_bytes(s.drop_last()) + cell_bytes(s.last())
    }
}

/// The raw body of a delta frame: its delta cells' bytes, concatenated in order.
pub open spec fn deltas_bytes(s: Seq<DeltaCell>) -> Seq<u8>
    decreases s.len(),
{
    if s.len() == 0 {
        Seq::empty()
    } else {
        deltas_bytes(s.drop_last()) + delta_bytes(s.last())
    }
}

/// The cells of a keyframe body: one for each whole six bytes.
pub open spec fn cells_of(b: Seq<u8>) -> Seq<Cell> {
    Seq::new(b.len() / 6, |i: int| cell_at(b, 6 * i))
}

/// The delta cells of a delta body: one for each whole ten bytes.
pub open spec fn deltas_of(b: Seq<u8>) -> Seq<DeltaCell> {
    Seq::new(b.len() / 10, |i: int| delta_at(b, 10 * i))
}

pub proof fn lemma_cells_bytes(s: Seq<Cell>)
    ensures
        cells_bytes(s).len() == 6 * s.len(),
        forall|i: int|
            0 <= i < s.len() ==> #[trigger] cells_bytes(s).subrange(6 * i, 6 * i + 6)
                == cell_bytes(s[i]),
    decreases s.len(),
{
    if s.len() > 0 {
        let p = s.drop_last();
        lemma_cells_bytes(p);
        let b = cells_bytes(s);
        assert forall|i: int| 0 <= i < s.len() implies #[trigger] b.subrange(6 * i, 6 * i + 6)
            == cell_bytes(s[i]) by {
            if i < p.len() {
                assert(b.subrange(6 * i, 6 * i + 6) =~= cells_bytes(p).subrange(6 * i, 6 * i + 6));
            } else {
                assert(b.subrange(6 * i, 6 * i + 6) =~= cell_bytes(s.last()));
            }
        }
    }
}

pub proof fn lemma_deltas_bytes(s: Seq<DeltaCell>)
    ensures
        deltas_bytes(s).len() == 10 * s.len(),
        forall|i: int|
            0 <= i < s.len() ==> #[trigger] deltas_bytes(s).subrange(10 * i, 10 * i + 10)
                == delta_bytes(s[i]),
    decreases s.len(),
{
    if s.len() > 0 {
        let p = s.drop_last();
        lemma_deltas_bytes(p);
        let b = deltas_bytes(s);
        assert forall|i: int| 0 <= i < s.len() implies #[trigger] b.subrange(10 * i, 10 * i + 10)
            == delta_bytes(s[i]) by {
            if i < p.len() {
                assert(b.subrange(10 * i, 10 * i + 10) =~= deltas_bytes(p).subrange(
                    10 * i,
                    10 * i + 10,
                ));
            } else {
                assert(b.subrange(10 * i, 10 * i + 10) =~= delta_bytes(s.last()));
            }
        }
    }
}

/// Parsing a keyframe body gives back the cells it was made of.
pub proof fn lemma_cells_round_trip(s: Seq<Cell>)
    ensures
        cells_of(cells_bytes(s)) == s,
{
    lemma_cells_bytes(s);
    let b = cells_bytes(s);
    assert(b.len() / 6 == s.len());
    assert forall|i: int| 0 <= i < s.len() implies cell_at(b, 6 * i) == s[i] by {
        assert(b.subrange(6 * i, 6 * i + 6) == cell_bytes(s[i]));
        lemma_cell_at(b, 6 * i, s[i]);
    }
    assert(cells_of(b) =~= s);
}

/// Parsing a delta body gives back the delta cells it was made of.
pub proof fn lemma_deltas_round_trip(s: Seq<DeltaCell>)
    ensures
        deltas_of(deltas_bytes(s)) == s,
{
    lemma_deltas_bytes(s);
    let b = deltas_bytes(s);
    assert(b.len() / 10 == s.len());
    assert forall|i: int| 0 <= i < s.len() implies delta_at(b, 10 * i) == s[i] by {
        assert(b.subrange(10 * i, 10 * i + 10) == delta_bytes(s[i]));
        lemma_delta_at(b, 10 * i, s[i]);
    }
    assert(deltas_of(b) =~= s);
}

#[derive(Clone, Copy, Debug, PartialEq, Eq, Structural)]
pub enum FrameType {
    Keyframe,
    Delta,
}

/// The tag byte of a frame type.
pub open spec fn frame_type_byte(t: FrameType) -> u8 {
    match t {
        FrameType::Keyframe => 0,
        FrameType::Delta => 1,
    }
}

/// The frame type a tag byte stands for: zero is a keyframe, anything else a delta.
pub open spec fn frame_type_of(v: u8) -> FrameType {
    if v == 0 {
        FrameType::Keyframe
    } else {
        FrameType::Delta
    }
}

impl FrameType {
    pub fn from_u8(v: u8) -> (r: Self)
        ensures
            r == frame_type_of(v),
    {
        match v {
            0 => FrameType::Keyframe,
            _ => FrameType::Delta,
        }
    }

    pub fn to_u8(&self) -> (r: u8)
        ensures
            r == frame_type_byte(*self),
    {
        match self {
            FrameType::Keyframe => 0,
            FrameType::Delta => 1,
        }
    }
}

/// Why a file, a frame or a message could not be read or written.
#[derive(Clone, Copy, Debug, PartialEq, Eq, Structural)]
pub enum FormatError {
    /// The file does not start with "RSFX".
    BadMagic,
    /// The header carries a version other than 1.
    UnsupportedVersion(u16),
    /// The data ends before what the header or index describes.
    Truncated,
    /// The frame at this index does not decompress, or has the wrong size.
    CorruptFrame(usize),
    /// The frame index is not below the frame count.
    IndexOutOfRange(usize),
    /// A size or count does not fit its field in the format.
    TooLarge,
}

/// File header — fixed 64 bytes at the start of a .rsfx file.
#[derive(Clone, Copy, Debug, PartialEq, Eq, Structural)]
pub struct RsfxHeader {
    pub cols: u16,
    pub rows: u16,
    pub fps_num: u16,
    pub fps_den: u16,
    pub frame_count: u32,
    pub keyframe_interval: u16,
    pub audio_sample_rate: u32,
    pub audio_channels: u16,
    pub audio_offset: u64,
    pub audio_length: u64,
    pub index_offset: u64,
}

/// The four magic bytes "RSFX".
pub open spec fn magic() -> Seq<u8> {
    seq![0x52u8, 0x53u8, 0x46u8, 0x58u8]
}

/// The 64 bytes of a header.
pub open spec fn header_bytes(h: RsfxHeader) -> Seq<u8> {
    magic() + le_u16_bytes(1) + le_u16_bytes(h.cols) + le_u16_bytes(h.rows) + le_u16_bytes(
        h.fps_num,
    ) + le_u16_bytes(h.fps_den) + le_u32_bytes(h.frame_count) + le_u16_bytes(
        h.keyframe_interval,
    ) + le_u32_bytes(h.audio_sample_rate) + le_u16_bytes(h.audio_channels) + le_u64_bytes(
        h.audio_offset,
    ) + le_u64_bytes(h.audio_length) + le_u64_bytes(h.index_offset) + Seq::new(
        14,
        |i: int| 0u8,
    )
}

/// What 64 header bytes decode to.
pub open spec fn parse_header(b: Seq<u8>) -> Result<RsfxHeader, FormatError> {
    if b.subrange(0, 4) != magic() {
        Err(FormatError::BadMagic)
    } else if u16_at(b, 4) != VERSION {
        Err(FormatError::UnsupportedVersion(u16_at(b, 4)))
    } else {
        Ok(
            RsfxHeader {
                cols: u16_at(b, 6),
                rows: u16_at(b, 8),
                fps_num: u16_at(b, 10),
                fps_den: u16_at(b, 12),
                frame_count: u32_at(b, 14),
                keyframe_interval: u16_at(b, 18),
                audio_sample_rate: u32_at(b, 20),
                audio_channels: u16_at(b, 24),
                audio_offset: u64_at(b, 26),
                audio_length: u64_at(b, 34),
                index_offset: u64_at(b, 42),
            },
        )
    }
}

/// Copies a vector of exactly `N` bytes into an array.
pub(crate) fn to_array<const N: usize>(v: &[u8]) -> (r: [u8; N])
    requires
        v@.len() == N,
    ensures
        r@ == v@,
{
    let mut r = [0u8; N];
    let mut i: usize = 0;
    while i < N
        invariant
            v@.len() == N,
            r@.len() == N,
            i <= N,
            forall|j: int| 0 <= j < i ==> r@[j] == v@[j],
        decreases N - i,
    {
        r[i] = v[i];
        i = i + 1;
    }
    assert(r@ =~= v@);
    r
}

impl RsfxHeader {
    pub fn to_bytes(&self) -> (r: [u8; HEADER_SIZE])
        ensures
            r@ == header_bytes(*self),
    {
        let mut b: Vec<u8> = Vec::new();
        b.push(0x52u8);
        b.push(0x53u8);
        b.push(0x46u8);
        b.push(0x58u8);
        assert(b@ =~= magic());
        push_u16(&mut b, VERSION);
        push_u16(&mut b, self.cols);
        push_u16(&mut b, self.rows);
        push_u16(&mut b, self.fps_num);
        push_u16(&mut b, self.fps_den);
        push_u32(&mut b, self.frame_count);
        push_u16(&mut b, self.keyframe_interval);
        push_u32(&mut b, self.audio_sample_rate);
        push_u16(&mut b, self.audio_channels);
        push_u64(&mut b, self.audio_offset);
        push_u64(&mut b, self.audio_length);
        push_u64(&mut b, self.index_offset);
        let ghost fields = b@;
        let mut i: usize = 0;
        while i < 14
            invariant
                i <= 14,
                b@ == fields + Seq::new(i as nat, |k: int| 0u8),
            decreases 14 - i,
        {
            b.push(0u8);
            i = i + 1;
            assert(b@ =~= fields + Seq::new(i as nat, |k: int| 0u8));
        }
        to_array(b.as_slice())
    }

    pub fn from_bytes(buf: &[u8; HEADER_SIZE]) -> (r: Result<Self, FormatError>)
        ensures
            r == parse_header(buf@),
    {
        let b = buf.as_slice();
        if !(b[0] == 0x52u8 && b[1] == 0x53u8 && b[2] == 0x46u8 && b[3] == 0x58u8) {
            assert(b@.subrange(0, 4) != magic()) by {
                if b@.subrange(0, 4) == magic() {
                    assert(b@[0] == b@.subrange(0, 4)[0]);
                    assert(b@[1] == b@.subrange(0, 4)[1]);
                    assert(b@[2] == b@.subrange(0, 4)[2]);
                    assert(b@[3] == b@.subrange(0, 4)[3]);
                }
            }
            return Err(FormatError::BadMagic);
        }
        assert(b@.subrange(0, 4) =~= magic());
        let version = read_u16(b, 4);
        if version != VERSION {
            return Err(FormatError::UnsupportedVersion(version));
        }
        Ok(
            RsfxHeader {
                cols: read_u16(b, 6),
                rows: read_u16(b, 8),
                fps_num: read_u16(b, 10),
                fps_den: read_u16(b, 12),
                frame_count: read_u32(b, 14),
                keyframe_interval: read_u16(b, 18),
                audio_sample_rate: read_u32(b, 20),
                audio_channels: read_u16(b, 24),
                audio_offset: read_u64(b, 26),
                audio_length: read_u64(b, 34),
                index_offset: read_u64(b, 42),
            },
        )
    }
}

/// Encoding a header and decoding the bytes gives back every field.
pub proof fn lemma_header_round_trip(h: RsfxHeader)
    ensures
        header_bytes(h).len() == HEADER_SIZE,
        parse_header(header_bytes(h)) == Ok::<RsfxHeader, FormatError>(h),
{
    let b = header_bytes(h);
    assert(b.len() == 64);
    assert(b.subrange(0, 4) =~= magic());
    assert(b.subrange(4, 6) =~= le_u16_bytes(1));
    assert(b.subrange(6, 8) =~= le_u16_bytes(h.cols));
    assert(b.subrange(8, 10) =~= le_u16_bytes(h.rows));
    assert(b.subrange(10, 12) =~= le_u16_bytes(h.fps_num));
    assert(b.subrange(12, 14) =~= le_u16_bytes(h.fps_den));
    assert(b.subrange(14, 18) =~= le_u32_bytes(h.frame_count));
    assert(b.subrange(18, 20) =~= le_u16_bytes(h.keyframe_interval));
    assert(b.subrange(20, 24) =~= le_u32_bytes(h.audio_sample_rate));
    assert(b.subrange(24, 26) =~= le_u16_bytes(h.audio_channels));
    assert(b.subrange(26, 34) =~= le_u64_bytes(h.audio_offset));
    assert(b.subrange(34, 42) =~= le_u64_bytes(h.audio_length));
    assert(b.subrange(42, 50) =~= le_u64_bytes(h.index_offset));
    lemma_u16_at(b, 4, 1);
    lemma_u16_at(b, 6, h.cols);
    lemma_u16_at(b, 8, h.rows);
    lemma_u16_at(b, 10, h.fps_num);
    lemma_u16_at(b, 12, h.fps_den);
    lemma_u32_at(b, 14, h.frame_count);
    lemma_u16_at(b, 18, h.keyframe_interval);
    lemma_u32_at(b, 20, h.audio_sample_rate);
    lemma_u16_at(b, 24, h.audio_channels);
    lemma_u64_at(b, 26, h.audio_offset);
    lemma_u64_at(b, 34, h.audio_length);
    lemma_u64_at(b, 42, h.index_offset);
}

/// One entry in the frame index at the end of the file.
#[derive(Clone, Copy, Debug, PartialEq, Eq, Structural)]
pub struct FrameIndexEntry {
    pub offset: u64,
    pub compressed_size: u32,
    pub frame_type: FrameType,
}

/// The 16 bytes of an index entry: offset, size, type tag, three zero bytes.
pub open spec fn entry_bytes(e: FrameIndexEntry) -> Seq<u8> {
    le_u64_bytes(e.offset) + le_u32_bytes(e.compressed_size) + seq![
        frame_type_byte(e.frame_type),
        0u8,
        0u8,
        0u8,
    ]
}

/// The index entry whose 16 bytes start at `off`.
pub open spec fn entry_at(b: Seq<u8>, off: int) -> FrameIndexEntry {
    FrameIndexEntry {
        offset: u64_at(b, off),
        compressed_size: u32_at(b, off + 8),
        frame_type: frame_type_of(b[off + 12]),
    }
}

impl FrameIndexEntry {
    pub const SIZE: usize = 16;

    pub fn to_bytes(&self) -> (r: [u8; 16])
        ensures
            r@ == entry_bytes(*self),
    {
        let mut b: Vec<u8> = Vec::new();
        push_u64(&mut b, self.offset);
        push_u32(&mut b, self.compressed_size);
        b.push(self.frame_type.to_u8());
        b.push(0u8);
        b.push(0u8);
        b.push(0u8);
        assert(b@ =~= entry_bytes(*self));
        to_array(b.as_slice())
    }

    pub fn from_bytes(buf: &[u8; 16]) -> (r: Self)
        ensures
            r == entry_at(buf@, 0),
    {
        let b = buf.as_slice();
        FrameIndexEntry {
            offset: read_u64(b, 0),
            compressed_size: read_u32(b, 8),
            frame_type: FrameType::from_u8(b[12]),
        }
    }
}

/// Reading an index entry back from where its bytes stand gives the entry.
pub proof fn lemma_entry_at(b: Seq<u8>, off: int, e: FrameIndexEntry)
    requires
        0 <= off,
        off + 16 <= b.len(),
        b.subrange(off, off + 16) == entry_bytes(e),
    ensures
        entry_at(b, off) == e,
{
    let s = b.subrange(off, off + 16);
    assert(b.subrange(off, off + 8) =~= s.subrange(0, 8));
    assert(s.subrange(0, 8) =~= le_u64_bytes(e.offset));
    assert(b.subrange(off + 8, off + 12) =~= s.subrange(8, 12));
    assert(s.subrange(8, 12) =~= le_u32_bytes(e.compressed_size));
    assert(b[off + 12] == s[12]);
    lemma_u64_at(b, off, e.offset);
    lemma_u32_at(b, off + 8, e.compressed_size);
}

} // verus!
