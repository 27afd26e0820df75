use rsfx::compress::{compress, decompress};
use rsfx::decode::RsfxReader;
use rsfx::encode::RsfxWriter;
use rsfx::format::{Cell, DeltaCell, FormatError, FrameIndexEntry, FrameType, RsfxHeader};

fn sample_cells(n: usize) -> Vec<Cell> {
    let mut cells = Vec::new();
    for i in 0..n {
        let v = i as u8;
        cells.push(Cell {
            bg_r: v,
            bg_g: v + 10,
            bg_b: v + 20,
            fg_r: v + 30,
            fg_g: v + 40,
            fg_b: v + 50,
        });
    }
    cells
}

#[test]
fn roundtrip_keyframe_and_delta() {
    let cols = 4u16;
    let rows = 2u16;
    let total_cells = (cols as usize) * (rows as usize);

    let mut cells: Vec<Cell> = Vec::new();
    for i in 0..total_cells {
        let v = i as u8;
        cells.push(Cell {
            bg_r: v,
            bg_g: v + 10,
            bg_b: v + 20,
            fg_r: v + 30,
            fg_g: v + 40,
            fg_b: v + 50,
        });
    }

    let deltas = vec![
        DeltaCell {
            x: 1,
            y: 0,
            cell: Cell { bg_r: 255, bg_g: 0, bg_b: 0, fg_r: 0, fg_g: 255, fg_b: 0 },
        },
        DeltaCell {
            x: 3,
            y: 1,
            cell: Cell { bg_r: 0, bg_g: 0, bg_b: 255, fg_r: 128, fg_g: 128, fg_b: 128 },
        },
    ];

    let audio_pcm = vec![0u8; 1024];

    let mut writer = RsfxWriter::new(cols, rows, 30, 30);
    writer.write_keyframe(&cells).unwrap();
    writer.write_delta(&deltas).unwrap();
    writer.write_audio(&audio_pcm, 44100, 2);
    let buf = writer.finish();

    let reader = RsfxReader::new(buf).unwrap();
    assert_eq!(reader.header.cols, cols);
    assert_eq!(reader.header.rows, rows);
    assert_eq!(reader.header.fps_num, 30);
    assert_eq!(reader.header.frame_count, 2);
    assert_eq!(reader.header.audio_sample_rate, 44100);
    assert_eq!(reader.header.audio_channels, 2);

    assert!(matches!(reader.frame_type(0), FrameType::Keyframe));
    let read_cells = reader.read_keyframe(0).unwrap();
    assert_eq!(read_cells, cells);

    assert!(matches!(reader.frame_type(1), FrameType::Delta));
    let read_deltas = reader.read_delta(1).unwrap();
    assert_eq!(read_deltas, deltas);

    let read_audio = reader.read_audio().unwrap();
    assert_eq!(read_audio, audio_pcm);
}

#[test]
fn minimal_file_layout() {
    let mut writer = RsfxWriter::new(4, 2, 30, 30);
    writer.write_keyframe(&sample_cells(8)).unwrap();
    writer.write_delta(&[]).unwrap();
    let file = writer.finish();
    assert_eq!(&file[0..4], b"RSFX");
    assert_eq!(&file[4..6], &[1, 0]);
    let reader = RsfxReader::new(file.clone()).unwrap();
    assert_eq!(reader.frame_count(), 2);
    assert_eq!(reader.header.fps_den, 1);
    assert_eq!(reader.header.keyframe_interval, 30);
    assert_eq!(reader.index[0].offset, 64);
    assert_eq!(reader.index[1].offset, 64 + reader.index[0].compressed_size as u64);
    assert_eq!(reader.header.index_offset as usize, file.len() - 32);
    assert_eq!(reader.header.audio_length, 0);
    assert_eq!(reader.read_audio().unwrap(), Vec::<u8>::new());
}

#[test]
fn empty_delta_reads_back_empty() {
    let mut writer = RsfxWriter::new(2, 1, 30, 30);
    writer.write_keyframe(&sample_cells(2)).unwrap();
    writer.write_delta(&[]).unwrap();
    let reader = RsfxReader::new(writer.finish()).unwrap();
    assert_eq!(reader.read_delta(1).unwrap(), Vec::<DeltaCell>::new());
}

fn sample_header() -> RsfxHeader {
    RsfxHeader {
        cols: 120,
        rows: 40,
        fps_num: 30000,
        fps_den: 1001,
        frame_count: 0x01020304,
        keyframe_interval: 30,
        audio_sample_rate: 44100,
        audio_channels: 2,
        audio_offset: 0x0102030405060708,
        audio_length: 0xfedcba9876543210,
        index_offset: 12345678901,
    }
}

#[test]
fn header_round_trip() {
    let h = sample_header();
    let bytes = h.to_bytes();
    assert_eq!(bytes.len(), 64);
    assert_eq!(&bytes[14..18], &[4, 3, 2, 1]);
    assert_eq!(&bytes[50..64], &[0u8; 14]);
    assert_eq!(RsfxHeader::from_bytes(&bytes), Ok(h));
}

#[test]
fn header_bad_magic() {
    let mut bytes = sample_header().to_bytes();
    bytes[0] = b'X';
    assert_eq!(RsfxHeader::from_bytes(&bytes), Err(FormatError::BadMagic));
}

#[test]
fn header_unsupported_version() {
    let mut bytes = sample_header().to_bytes();
    bytes[4] = 2;
    assert_eq!(RsfxHeader::from_bytes(&bytes), Err(FormatError::UnsupportedVersion(2)));
}

#[test]
fn reader_truncated_header() {
    assert_eq!(RsfxReader::new(vec![0u8; 10]).err(), Some(FormatError::Truncated));
}

#[test]
fn reader_truncated_index() {
    let mut writer = RsfxWriter::new(2, 1, 30, 30);
    writer.write_keyframe(&sample_cells(2)).unwrap();
    let mut file = writer.finish();
    file.truncate(file.len() - 1);
    assert_eq!(RsfxReader::new(file).err(), Some(FormatError::Truncated));
}

#[test]
fn reader_index_out_of_range() {
    let mut writer = RsfxWriter::new(2, 1, 30, 30);
    writer.write_keyframe(&sample_cells(2)).unwrap();
    let reader = RsfxReader::new(writer.finish()).unwrap();
    assert_eq!(reader.read_keyframe(1), Err(FormatError::IndexOutOfRange(1)));
}

#[test]
fn reader_corrupt_keyframe_size() {
    // A keyframe of three cells in a file whose grid is two cells.
    let mut writer = RsfxWriter::new(2, 1, 30, 30);
    writer.write_keyframe(&sample_cells(3)).unwrap();
    let reader = RsfxReader::new(writer.finish()).unwrap();
    assert_eq!(reader.read_keyframe(0), Err(FormatError::CorruptFrame(0)));
}

#[test]
fn reader_corrupt_delta_size() {
    let mut writer = RsfxWriter::new(2, 1, 30, 30);
    writer.write_keyframe(&sample_cells(1)).unwrap();
    let reader = RsfxReader::new(writer.finish()).unwrap();
    // Six bytes are not a whole number of delta cells.
    assert_eq!(reader.read_delta(0), Err(FormatError::CorruptFrame(0)));
}

#[test]
fn reader_corrupt_payload() {
    let mut writer = RsfxWriter::new(2, 1, 30, 30);
    writer.write_keyframe(&sample_cells(2)).unwrap();
    let mut file = writer.finish();
    // A block cut after a token that announces more literal bytes.
    file[68] = 0xf0;
    let mut reader = RsfxReader::new(file).unwrap();
    reader.index[0].compressed_size = 5;
    assert_eq!(reader.read_keyframe(0), Err(FormatError::CorruptFrame(0)));
}

#[test]
fn reader_truncated_payload() {
    let mut writer = RsfxWriter::new(2, 1, 30, 30);
    writer.write_keyframe(&sample_cells(2)).unwrap();
    let mut reader = RsfxReader::new(writer.finish()).unwrap();
    reader.index[0].offset = 1 << 40;
    assert_eq!(reader.read_frame_raw(0), Err(FormatError::Truncated));
}

#[test]
fn reader_truncated_audio() {
    let mut writer = RsfxWriter::new(2, 1, 30, 30);
    writer.write_audio(&[1, 2, 3, 4], 16000, 1);
    let mut reader = RsfxReader::new(writer.finish()).unwrap();
    assert_eq!(reader.read_audio().unwrap(), vec![1, 2, 3, 4]);
    reader.header.audio_length = 1 << 40;
    assert_eq!(reader.read_audio(), Err(FormatError::Truncated));
}

#[test]
fn cell_and_delta_cell_bytes() {
    let c = Cell { bg_r: 1, bg_g: 2, bg_b: 3, fg_r: 4, fg_g: 5, fg_b: 6 };
    assert_eq!(c.to_bytes(), [1, 2, 3, 4, 5, 6]);
    assert_eq!(Cell::from_bytes(&[1, 2, 3, 4, 5, 6, 9]), c);
    let d = DeltaCell { x: 0x0102, y: 0x0304, cell: c };
    assert_eq!(d.to_bytes(), [2, 1, 4, 3, 1, 2, 3, 4, 5, 6]);
    assert_eq!(DeltaCell::from_bytes(&d.to_bytes()), d);
}

#[test]
fn frame_type_tolerant_decode() {
    assert_eq!(FrameType::from_u8(0), FrameType::Keyframe);
    assert_eq!(FrameType::from_u8(1), FrameType::Delta);
    assert_eq!(FrameType::from_u8(7), FrameType::Delta);
}

#[test]
fn index_entry_bytes() {
    let e = FrameIndexEntry { offset: 0x1122334455667788, compressed_size: 0xaabbccdd, frame_type: FrameType::Delta };
    let b = e.to_bytes();
    assert_eq!(b, [0x88, 0x77, 0x66, 0x55, 0x44, 0x33, 0x22, 0x11, 0xdd, 0xcc, 0xbb, 0xaa, 1, 0, 0, 0]);
    assert_eq!(FrameIndexEntry::from_bytes(&b), e);
}

#[test]
fn lz4_round_trip_and_size_prefix() {
    let data = vec![7u8; 1000];
    let c = compress(&data);
    assert_ne!(c, data);
    assert!(c.len() < data.len());
    assert_eq!(&c[0..4], &1000u32.to_le_bytes());
    assert_eq!(decompress(&c), Some(data));
    assert_eq!(decompress(&[1, 2]), None);
}

#[test]
fn reader_refuses_oversized_payload() {
    let mut writer = RsfxWriter::new(2, 1, 30, 30);
    writer.write_keyframe(&sample_cells(2)).unwrap();
    let mut reader = RsfxReader::new(writer.finish()).unwrap();
    reader.data.resize(64 + 16_843_015, 0xff);
    reader.index[0].compressed_size = 16_843_015;
    assert_eq!(reader.read_keyframe(0), Err(FormatError::TooLarge));
}
