//! Streaming, append-only writer of the container format.
use vstd::prelude::*;
use crate::compress::{
    compress, compressible, decompressible, lz4_decompressed, max_compressed_len,
};
use crate::format::{
    Cell, DeltaCell, FormatError, FrameIndexEntry, FrameType, RsfxHeader, HEADER_SIZE, cells_bytes,
    deltas_bytes, entry_bytes, header_bytes, lemma_header_round_trip,
};

verus! {

/// The state of a writer: the bytes written so far, the header to be written at
/// the end, the index entries of the frames written, and their raw bodies.
pub struct WriterState {
    pub sink: Seq<u8>,
    pub header: RsfxHeader,
    pub index: Seq<FrameIndexEntry>,
    pub bodies: Seq<Seq<u8>>,
}

/// The bytes of `sink` that the index entry `e` points to: a frame's payload.
pub open spec fn payload(sink: Seq<u8>, e: FrameIndexEntry) -> Seq<u8> {
    sink.subrange(e.offset as int, e.offset + e.compressed_size)
}

/// What every writer state satisfies: the header is in place, the length fits the
/// format's 64-bit offsets, there is one index entry for each frame, and each payload
/// lies after the header and decompresses to its body.
pub open spec fn state_valid(w: WriterState) -> bool {
    &&& HEADER_SIZE <= w.sink.len() <= u64::MAX
    &&& w.index.len() == w.bodies.len()
    &&& w.index.len() <= u32::MAX
    &&& forall|i: int| 0 <= i < w.index.len() ==> #[trigger] frame_stored(w, i)
}

/// Frame `i`'s payload lies after the header, may be handed to the decompressor, and
/// decompresses to the frame's body.
pub open spec fn frame_stored(w: WriterState, i: int) -> bool {
    let e = w.index[i];
    &&& HEADER_SIZE <= e.offset
    &&& e.offset + e.compressed_size <= w.sink.len()
    &&& decompressible(payload(w.sink, e))
    &&& lz4_decompressed(payload(w.sink, e)) == Some(w.bodies[i])
}

/// The header a new writer starts from: all metadata zero but the grid, the rate and the
/// keyframe interval.
pub open spec fn initial_header(cols: u16, rows: u16, fps: u16, keyframe_interval: u16) -> RsfxHeader {
    RsfxHeader {
        cols,
        rows,
        fps_num: fps,
        fps_den: 1,
        frame_count: 0,
        keyframe_interval,
        audio_sample_rate: 0,
        audio_channels: 0,
        audio_offset: 0,
        audio_length: 0,
        index_offset: 0,
    }
}

/// A new writer: the placeholder header is already written.
pub open spec fn writer_start(cols: u16, rows: u16, fps: u16, keyframe_interval: u16) -> WriterState {
    let h = initial_header(cols, rows, fps, keyframe_interval);
    WriterState { sink: header_bytes(h), header: h, index: Seq::empty(), bodies: Seq::empty() }
}

/// Whether a frame with this raw body can still be recorded: its worst-case compressed
/// size is one the reader can decompress (so it fits an index entry too), the compressor's
/// and decompressor's size arithmetic fits `usize`, and the frame count fits the header.
pub open spec fn frame_fits(w: WriterState, body: Seq<u8>) -> bool {
    &&& max_compressed_len(body.len() as int) <= 16_843_014
    &&& body.len() * 110 <= usize::MAX
    &&& body.len() + 255 * max_compressed_len(body.len() as int) + 19 <= usize::MAX
    &&& w.index.len() < u32::MAX
}

/// The writer after appending `c`, the compressed `body`, as a frame of type `t`.
pub open spec fn with_frame(w: WriterState, t: FrameType, body: Seq<u8>, c: Seq<u8>) -> WriterState {
    WriterState {
        sink: w.sink + c,
        header: w.header,
        index: w.index.push(
            FrameIndexEntry {
                offset: w.sink.len() as u64,
                compressed_size: c.len() as u32,
                frame_type: t,
            },
        ),
        bodies: w.bodies.push(body),
    }
}

/// `after` is `before` with `body` appended as a frame of type `t`, compressed to bytes
/// that decompress to it and are no longer than the compressor's worst case.
pub open spec fn frame_appended(before: WriterState, after: WriterState, t: FrameType, body: Seq<u8>) -> bool {
    exists|c: Seq<u8>|
        lz4_decompressed(c) == Some(body) && c.len() <= max_compressed_len(body.len() as int)
            && after == #[trigger] with_frame(before, t, body, c)
}

/// The writer after appending the audio blob.
pub open spec fn with_audio(w: WriterState, pcm: Seq<u8>, sample_rate: u32, channels: u16) -> WriterState {
    WriterState {
        sink: w.sink + pcm,
        header: RsfxHeader {
            audio_offset: w.sink.len() as u64,
            audio_length: pcm.len() as u64,
            audio_sample_rate: sample_rate,
            audio_channels: channels,
            ..w.header
        },
        index: w.index,
        bodies: w.bodies,
    }
}

/// The bytes of a frame index: its entries' bytes, concatenated in order.
pub open spec fn index_bytes(s: Seq<FrameIndexEntry>) -> Seq<u8>
    decreases s.len(),
{
    if s.len() == 0 {
        Seq::empty()
    } else {
        index_bytes(s.drop_last()) + entry_bytes(s.last())
    }
}

/// The header as it is rewritten on finishing.
pub open spec fn final_header(w: WriterState) -> RsfxHeader {
    RsfxHeader { frame_count: w.index.len() as u32, index_offset: w.sink.len() as u64, ..w.header }
}

/// The finished file: the final header, the frames and audio, then the index.
pub open spec fn finished_file(w: WriterState) -> Seq<u8> {
    header_bytes(final_header(w)) + w.sink.subrange(HEADER_SIZE as int, w.sink.len() as int)
        + index_bytes(w.index)
}

/// Writes .rsfx files incrementally, into memory.
pub struct RsfxWriter {
    sink: Vec<u8>,
    header: RsfxHeader,
    index: Vec<FrameIndexEntry>,
    bodies: Ghost<Seq<Seq<u8>>>,
}

impl View for RsfxWriter {
    type V = WriterState;

    closed spec fn view(&self) -> WriterState {
        WriterState { sink: self.sink@, header: self.header, index: self.index@, bodies: self.bodies@ }
    }
}

/// Appends the bytes of `cells`.
fn push_cells(raw: &mut Vec<u8>, cells: &[Cell])
    ensures
        final(raw)@ == old(raw)@ + cells_bytes(cells@),
{
    let ghost start = raw@;
    let mut i: usize = 0;
    while i < cells.len()
        invariant
            i <= cells@.len(),
            raw@ == start + cells_bytes(cells@.take(i as int)),
        decreases cells@.len() - i,
    {
        let b = cells[i].to_bytes();
        raw.push(b[0]);
        raw.push(b[1]);
        raw.push(b[2]);
        raw.push(b[3]);
        raw.push(b[4]);
        raw.push(b[5]);
        proof {
            let t = cells@.take(i + 1);
            assert(t.drop_last() =~= cells@.take(i as int));
            assert(raw@ =~= start + cells_bytes(t));
        }
        i = i + 1;
    }
    assert(cells@.take(i as int) =~= cells@);
}

/// Appends the bytes of `deltas`.
fn push_deltas(raw: &mut Vec<u8>, deltas: &[DeltaCell])
    ensures
        final(raw)@ == old(raw)@ + deltas_bytes(deltas@),
{
    let ghost start = raw@;
    let mut i: usize = 0;
    while i < deltas.len()
        invariant
            i <= deltas@.len(),
            raw@ == start + deltas_bytes(deltas@.take(i as int)),
        decreases deltas@.len() - i,
    {
        let b = deltas[i].to_bytes();
        let mut k: usize = 0;
        let ghost before = raw@;
        while k < 10
            invariant
                k <= 10,
                b@.len() == 10,
                raw@ == before + b@.take(k as int),
            decreases 10 - k,
        {
            raw.push(b[k]);
            k = k + 1;
            assert(raw@ =~= before + b@.take(k as int));
        }
        proof {
            let t = deltas@.take(i + 1);
            assert(t.drop_last() =~= deltas@.take(i as int));
            assert(b@.take(10) =~= b@);
            assert(raw@ =~= start + deltas_bytes(t));
        }
        i = i + 1;
    }
    assert(deltas@.take(i as int) =~= deltas@);
}

impl RsfxWriter {
    /// Creates a new writer and writes a placeholder header.
    pub fn new(cols: u16, rows: u16, fps: u16, keyframe_interval: u16) -> (r: Self)
        ensures
            state_valid(r@),
            r@ == writer_start(cols, rows, fps, keyframe_interval),
    {
        let header = RsfxHeader {
            cols,
            rows,
            fps_num: fps,
            fps_den: 1,
            frame_count: 0,
            keyframe_interval,
            audio_sample_rate: 0,
            audio_channels: 0,
            audio_offset: 0,
            audio_length: 0,
            index_offset: 0,
        };
        let hb = header.to_bytes();
        let mut sink: Vec<u8> = Vec::new();
        sink.extend_from_slice(hb.as_slice());
        proof {
            lemma_header_round_trip(header);
        }
        assert(sink@ =~= header_bytes(header));
        RsfxWriter { sink, header, index: Vec::new(), bodies: Ghost(Seq::empty()) }
    }

    /// Compresses `raw` and appends it as a frame of type `t`.
    fn write_frame(&mut self, raw: &Vec<u8>, t: FrameType) -> (r: Result<(), FormatError>)
        requires
            state_valid(old(self)@),
        ensures
            state_valid(final(self)@),
            r is Ok <==> frame_fits(old(self)@, raw@),
            r is Ok ==> frame_appended(old(self)@, final(self)@, t, raw@),
            r is Err ==> r == Err::<(), FormatError>(FormatError::TooLarge) && final(self)@ == old(
                self,
            )@,
    {
        let n = raw.len() as u128;
        let max = 24 + n * 110 / 100;
        let fits = max <= 16_843_014 && n * 110 <= usize::MAX as u128 && n + 255 * max + 19
            <= usize::MAX as u128 && (self.index.len() as u64) < u32::MAX as u64;
        if !fits {
            return Err(FormatError::TooLarge);
        }
        assert(compressible(raw@.len() as int));
        let mut compressed = compress(raw.as_slice());
        let ghost c = compressed@;
        assert(decompressible(c));
        let offset = self.sink.len() as u64;
        let size = compressed.len() as u32;
        self.sink.append(&mut compressed);
        // The length is a `usize`, so offsets into the sink fit the format's `u64`.
        let end = self.sink.len();
        assert(end <= u64::MAX);
        self.index.push(FrameIndexEntry { offset, compressed_size: size, frame_type: t });
        self.bodies = Ghost(self.bodies@.push(raw@));
        proof {
            let w0 = old(self)@;
            let w = self@;
            assert(w == with_frame(w0, t, raw@, c));
            assert forall|i: int| 0 <= i < w.index.len() implies #[trigger] frame_stored(w, i) by {
                let e = w.index[i];
                if i < w0.index.len() {
                    assert(frame_stored(w0, i));
                    assert(payload(w.sink, e) =~= payload(w0.sink, e));
                } else {
                    assert(payload(w.sink, e) =~= c);
                }
            }
        }
        Ok(())
    }

    /// Writes a keyframe (full cell grid, row-major).
    pub fn write_keyframe(&mut self, cells: &[Cell]) -> (r: Result<(), FormatError>)
        requires
            state_valid(old(self)@),
        ensures
            state_valid(final(self)@),
            r is Ok <==> frame_fits(old(self)@, cells_bytes(cells@)),
            r is Ok ==> frame_appended(
                old(self)@,
                final(self)@,
                FrameType::Keyframe,
                cells_bytes(cells@),
            ),
            r is Err ==> r == Err::<(), FormatError>(FormatError::TooLarge) && final(self)@ == old(
                self,
            )@,
    {
        let mut raw: Vec<u8> = Vec::new();
        push_cells(&mut raw, cells);
        assert(raw@ =~= cells_bytes(cells@));
        self.write_frame(&raw, FrameType::Keyframe)
    }

    /// Writes a delta frame (list of changed cells).
    pub fn write_delta(&mut self, deltas: &[DeltaCell]) -> (r: Result<(), FormatError>)
        requires
            state_valid(old(self)@),
        ensures
            state_valid(final(self)@),
            r is Ok <==> frame_fits(old(self)@, deltas_bytes(deltas@)),
            r is Ok ==> frame_appended(
                old(self)@,
                final(self)@,
                FrameType::Delta,
                deltas_bytes(deltas@),
            ),
            r is Err ==> r == Err::<(), FormatError>(FormatError::TooLarge) && final(self)@ == old(
                self,
            )@,
    {
        let mut raw: Vec<u8> = Vec::new();
        push_deltas(&mut raw, deltas);
        assert(raw@ =~= deltas_bytes(deltas@));
        self.write_frame(&raw, FrameType::Delta)
    }

    /// Writes raw PCM audio data. Call after all frames.
    pub fn write_audio(&mut self, pcm_data: &[u8], sample_rate: u32, channels: u16)
        requires
            state_valid(old(self)@),
        ensures
            state_valid(final(self)@),
            final(self)@ == with_audio(old(self)@, pcm_data@, sample_rate, channels),
    {
        let offset = self.sink.len() as u64;
        self.sink.extend_from_slice(pcm_data);
        // The length is a `usize`, so offsets into the sink fit the format's `u64`.
        let end = self.sink.len();
        assert(end <= u64::MAX);
        assert(self.sink@ =~= old(self)@.sink + pcm_data@);
        self.header.audio_offset = offset;
        self.header.audio_length = pcm_data.len() as u64;
        self.header.audio_sample_rate = sample_rate;
        self.header.audio_channels = channels;
        proof {
            let w0 = old(self)@;
            let w = self@;
            assert forall|i: int| 0 <= i < w.index.len() implies #[trigger] frame_stored(w, i) by {
                assert(frame_stored(w0, i));
                assert(payload(w.sink, w.index[i]) =~= payload(w0.sink, w0.index[i]));
            }
        }
    }

    /// Finalizes: writes the frame index, rewrites the header, and returns the file.
    pub fn finish(self) -> (r: Vec<u8>)
        requires
            state_valid(self@),
        ensures
            r@ == finished_file(self@),
    {
        let mut sink = self.sink;
        let index_offset = sink.len() as u64;
        push_index(&mut sink, &self.index);
        let mut header = self.header;
        header.frame_count = self.index.len() as u32;
        header.index_offset = index_offset;
        let hb = header.to_bytes();
        overwrite_header(&mut sink, &hb);
        assert(sink@ =~= finished_file(self@));
        sink
    }
}

/// Appends the bytes of the frame index.
fn push_index(sink: &mut Vec<u8>, index: &Vec<FrameIndexEntry>)
    ensures
        final(sink)@ == old(sink)@ + index_bytes(index@),
{
    let ghost start = sink@;
    let mut i: usize = 0;
    while i < index.len()
        invariant
            i <= index@.len(),
            sink@ == start + index_bytes(index@.take(i as int)),
        decreases index@.len() - i,
    {
        let b = index[i].to_bytes();
        sink.extend_from_slice(b.as_slice());
        proof {
            let t = index@.take(i + 1);
            assert(t.drop_last() =~= index@.take(i as int));
        }
        assert(sink@ =~= start + index_bytes(index@.take(i + 1)));
        i = i + 1;
    }
    assert(index@.take(i as int) =~= index@);
}

/// Replaces the first 64 bytes with `hb`.
fn overwrite_header(sink: &mut Vec<u8>, hb: &[u8; HEADER_SIZE])
    requires
        old(sink)@.len() >= HEADER_SIZE,
    ensures
        final(sink)@ == hb@ + old(sink)@.subrange(HEADER_SIZE as int, old(sink)@.len() as int),
{
    let ghost orig = sink@;
    let mut k: usize = 0;
    while k < HEADER_SIZE
        invariant
            k <= HEADER_SIZE,
            hb@.len() == HEADER_SIZE,
            orig.len() >= HEADER_SIZE,
            sink@.len() == orig.len(),
            forall|j: int| 0 <= j < k ==> sink@[j] == hb@[j],
            forall|j: int| k <= j < sink@.len() ==> sink@[j] == orig[j],
        decreases HEADER_SIZE - k,
    {
        sink.set(k, hb[k]);
        k = k + 1;
    }
    assert(sink@ =~= hb@ + orig.subrange(HEADER_SIZE as int, orig.len() as int));
}

} // verus!
