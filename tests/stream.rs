use rsfx::audio::{pcm_samples, wrap_pcm_as_wav};
use rsfx::convert::{ConvertError, Converter};
use rsfx::decode::RsfxReader;
use rsfx::format::{Cell, FrameType};
use rsfx::live::{LiveAction, LiveSession};
use rsfx::protocol::{parse_message, ControlCmd, Message, ProtocolError};
use rsfx::resize::{FrameResizer, VideoFrame};

fn wire_bytes() -> Vec<u8> {
    let mut b = Vec::new();
    b.extend_from_slice(b"RC\x02");
    b.extend_from_slice(b"RF\x02\x00\x02\x00");
    b.extend_from_slice(&123456789u64.to_le_bytes());
    b.extend_from_slice(&[1, 2, 3, 4, 5, 6, 7, 8, 9, 10, 11, 12]);
    b.extend_from_slice(b"RC\x00");
    b
}

#[test]
fn wire_protocol_sequence() {
    let bytes = wire_bytes();
    let mut rest: &[u8] = &bytes;
    let mut msgs = Vec::new();
    while !rest.is_empty() {
        let (m, n) = parse_message(rest).unwrap().unwrap();
        msgs.push(m);
        rest = &rest[n..];
    }
    assert_eq!(msgs.len(), 3);
    assert!(matches!(msgs[0], Message::Control(ControlCmd::Ready)));
    match &msgs[1] {
        Message::Frame { width, height, timestamp_us, rgb_data } => {
            assert_eq!((*width, *height, *timestamp_us), (2, 2, 123456789));
            assert_eq!(rgb_data, &vec![1, 2, 3, 4, 5, 6, 7, 8, 9, 10, 11, 12]);
        }
        _ => panic!("expected a frame"),
    }
    assert!(matches!(msgs[2], Message::Control(ControlCmd::Stop)));
}

#[test]
fn wire_protocol_partial_and_errors() {
    let bytes = wire_bytes();
    assert!(parse_message(&bytes[3..10]).unwrap().is_none());
    assert!(parse_message(&bytes[3..28]).unwrap().is_none());
    assert!(parse_message(&bytes[..1]).unwrap().is_none());
    assert_eq!(parse_message(b"XY").err(), Some(ProtocolError::UnknownTag(b'X', b'Y')));
    assert_eq!(parse_message(b"RC\x07").err(), Some(ProtocolError::UnknownControl(7)));
    let (m, n) = parse_message(b"RA\x02\x00\x00\x00\x01\x80RC").unwrap().unwrap();
    assert_eq!(n, 8);
    match m {
        Message::Audio(pcm) => assert_eq!(pcm, vec![1, 0x80]),
        _ => panic!("expected audio"),
    }
}

#[test]
fn live_session_waits_for_ready() {
    let mut s = LiveSession::new();
    let mut buf = Vec::new();
    let frame = Message::Frame { width: 1, height: 2, timestamp_us: 0, rgb_data: vec![1, 2, 3, 4, 5, 6] };
    assert!(matches!(s.handle(frame, &mut buf), LiveAction::Ignore));
    assert!(matches!(s.handle(Message::Control(ControlCmd::Stop), &mut buf), LiveAction::Ignore));
    assert!(buf.is_empty());
    assert!(matches!(s.handle(Message::Control(ControlCmd::Ready), &mut buf), LiveAction::Ready));
    assert!(s.is_ready_now());
    let frame = Message::Frame { width: 1, height: 2, timestamp_us: 0, rgb_data: vec![1, 2, 3, 4, 5, 6] };
    assert!(matches!(s.handle(frame, &mut buf), LiveAction::Draw));
    assert_eq!(buf, b"\x1b[H\x1b[48;2;1;2;3m\x1b[38;2;4;5;6m\xe2\x96\x84\x1b[0m".to_vec());
    let same = Message::Frame { width: 1, height: 2, timestamp_us: 1, rgb_data: vec![1, 2, 3, 4, 5, 6] };
    assert!(matches!(s.handle(same, &mut buf), LiveAction::Draw));
    assert!(buf.is_empty());
    match s.handle(Message::Audio(vec![0x00, 0x80, 0xff, 0x7f]), &mut buf) {
        LiveAction::PlayAudio(samples) => assert_eq!(samples, vec![-32768, 32767]),
        _ => panic!("expected audio"),
    }
    assert!(matches!(s.handle(Message::Control(ControlCmd::Start), &mut buf), LiveAction::Ignore));
    assert!(matches!(s.handle(Message::Control(ControlCmd::Stop), &mut buf), LiveAction::Stop));
}

#[test]
fn pcm_samples_little_endian() {
    assert_eq!(pcm_samples(&[0x34, 0x12, 0xff, 0xff, 9]), vec![0x1234, -1]);
}

#[test]
fn wav_header_layout() {
    let wav = wrap_pcm_as_wav(vec![1, 2, 3, 4], 44100, 2);
    let mut expected = Vec::new();
    expected.extend_from_slice(b"RIFF");
    expected.extend_from_slice(&40u32.to_le_bytes());
    expected.extend_from_slice(b"WAVEfmt ");
    expected.extend_from_slice(&16u32.to_le_bytes());
    expected.extend_from_slice(&1u16.to_le_bytes());
    expected.extend_from_slice(&2u16.to_le_bytes());
    expected.extend_from_slice(&44100u32.to_le_bytes());
    expected.extend_from_slice(&176400u32.to_le_bytes());
    expected.extend_from_slice(&4u16.to_le_bytes());
    expected.extend_from_slice(&16u16.to_le_bytes());
    expected.extend_from_slice(b"data");
    expected.extend_from_slice(&4u32.to_le_bytes());
    expected.extend_from_slice(&[1, 2, 3, 4]);
    assert_eq!(wav.len(), 48);
    assert_eq!(wav, expected);
}

#[test]
fn resizer_keeps_matching_frames_and_resizes_others() {
    let mut r = FrameResizer::new(2, 1);
    assert_eq!((r.target_width(), r.target_height()), (2, 2));
    let same: Vec<u8> = (0..12).collect();
    assert_eq!(r.resize(&same, 2, 2), Some(same.clone()));
    let big = vec![100u8; 4 * 4 * 3];
    let out = r.resize(&big, 4, 4).unwrap();
    assert_eq!(out.len(), 12);
    assert!(out.iter().all(|v| *v == 100));
    assert_eq!(r.resize(&[1, 2, 3], 4, 4), None);
}

fn frame_of(v: u8) -> VideoFrame {
    VideoFrame { data: vec![v; 2 * 2 * 3], width: 2, height: 2 }
}

#[test]
fn converter_follows_keyframe_cadence() {
    let mut c = Converter::new(2, 1, 30, 2);
    c.push_frame(&frame_of(1)).unwrap();
    c.push_frame(&frame_of(1)).unwrap();
    c.push_frame(&frame_of(1)).unwrap();
    c.push_audio(&[0u8; 8], 44100, 2);
    assert_eq!(c.frame_count(), 3);
    let reader = RsfxReader::new(c.finish()).unwrap();
    assert_eq!(reader.frame_type(0), FrameType::Keyframe);
    assert_eq!(reader.frame_type(1), FrameType::Delta);
    assert_eq!(reader.frame_type(2), FrameType::Keyframe);
    let one = Cell { bg_r: 1, bg_g: 1, bg_b: 1, fg_r: 1, fg_g: 1, fg_b: 1 };
    assert_eq!(reader.read_keyframe(2).unwrap(), vec![one, one]);
    assert!(reader.read_delta(1).unwrap().is_empty());
    assert_eq!(reader.read_audio().unwrap(), vec![0u8; 8]);
}

#[test]
fn converter_rejects_short_frames() {
    let mut c = Converter::new(2, 1, 30, 30);
    let short = VideoFrame { data: vec![0; 5], width: 2, height: 2 };
    assert_eq!(c.push_frame(&short), Err(ConvertError::Resize));
    assert_eq!(c.frame_count(), 0);
}

#[test]
fn converter_resizes_frames_of_another_size() {
    let mut c = Converter::new(2, 1, 30, 30);
    let frame = VideoFrame { data: vec![50u8; 6 * 4 * 3], width: 6, height: 4 };
    c.push_frame(&frame).unwrap();
    c.push_frame(&frame).unwrap();
    let reader = RsfxReader::new(c.finish()).unwrap();
    let cell = Cell { bg_r: 50, bg_g: 50, bg_b: 50, fg_r: 50, fg_g: 50, fg_b: 50 };
    assert_eq!(reader.read_keyframe(0).unwrap(), vec![cell, cell]);
    assert_eq!(reader.frame_type(1), FrameType::Delta);
    assert!(reader.read_delta(1).unwrap().is_empty());
}
