//! The live wire protocol: tagged messages concatenated on a byte stream.
use vstd::prelude::*;
use crate::le::{read_u16, read_u32, read_u64, u16_at, u32_at, u64_at};

verus! {

#[derive(Debug, Clone, Copy, PartialEq, Eq, Structural)]
pub enum ControlCmd {
    Stop,
    Start,
    Ready,
}

/// Messages received over the wire protocol.
pub enum Message {
    /// RGB frame data: width, height, timestamp_us, pixel data
    Frame { width: u16, height: u16, timestamp_us: u64, rgb_data: Vec<u8> },
    /// Raw PCM audio (s16le)
    Audio(Vec<u8>),
    /// Control command
    Control(ControlCmd),
}

/// A message with its payloads as byte sequences.
pub enum MessageView {
    Frame { width: u16, height: u16, timestamp_us: u64, rgb_data: Seq<u8> },
    Audio(Seq<u8>),
    Control(ControlCmd),
}

impl View for Message {
    type V = MessageView;

    open spec fn view(&self) -> MessageView {
        match self {
            Message::Frame { width, height, timestamp_us, rgb_data } => MessageView::Frame {
                width: *width,
                height: *height,
                timestamp_us: *timestamp_us,
                rgb_data: rgb_data@,
            },
            Message::Audio(pcm) => MessageView::Audio(pcm@),
            Message::Control(c) => MessageView::Control(*c),
        }
    }
}

/// Why a byte stream is not a valid message stream.
#[derive(Debug, Clone, Copy, PartialEq, Eq, Structural)]
pub enum ProtocolError {
    /// The two tag bytes are none of "RF", "RA", "RC".
    UnknownTag(u8, u8),
    /// A control message carries a command other than 0, 1, 2.
    UnknownControl(u8),
}

/// A frame message's pixel data holds `width * height` RGB24 pixels.
pub open spec fn message_wf(m: MessageView) -> bool {
    match m {
        MessageView::Frame { width, height, rgb_data, .. } => rgb_data.len() == width * height * 3,
        _ => true,
    }
}

/// The first message in `b`, with the number of bytes it takes; `None` while `b` ends
/// before the message does.
pub open spec fn parse_spec(b: Seq<u8>) -> Result<Option<(MessageView, int)>, ProtocolError> {
    if b.len() < 2 {
        Ok(None)
    } else if b[0] == 0x52 && b[1] == 0x46 {
        if b.len() < 14 {
            Ok(None)
        } else {
            let w = u16_at(b, 2);
            let h = u16_at(b, 4);
            let n = w * h * 3;
            if b.len() < 14 + n {
                Ok(None)
            } else {
                Ok(
                    Some(
                        (
                            MessageView::Frame {
                                width: w,
                                height: h,
                                timestamp_us: u64_at(b, 6),
                                rgb_data: b.subrange(14, 14 + n),
                            },
                            14 + n,
                        ),
                    ),
                )
            }
        }
    } else if b[0] == 0x52 && b[1] == 0x41 {
        if b.len() < 6 {
            Ok(None)
        } else {
            let n = u32_at(b, 2);
            if b.len() < 6 + n {
                Ok(None)
            } else {
                Ok(Some((MessageView::Audio(b.subrange(6, 6 + n)), 6 + n)))
            }
        }
    } else if b[0] == 0x52 && b[1] == 0x43 {
        if b.len() < 3 {
            Ok(None)
        } else if b[2] == 0 {
            Ok(Some((MessageView::Control(ControlCmd::Stop), 3)))
        } else if b[2] == 1 {
            Ok(Some((MessageView::Control(ControlCmd::Start), 3)))
        } else if b[2] == 2 {
            Ok(Some((MessageView::Control(ControlCmd::Ready), 3)))
        } else {
            Err(ProtocolError::UnknownControl(b[2]))
        }
    } else {
        Err(ProtocolError::UnknownTag(b[0], b[1]))
    }
}

/// Copies `b[start..end]` into a new vector.
fn copy_range(b: &[u8], start: usize, end: usize) -> (r: Vec<u8>)
    requires
        start <= end <= b@.len(),
    ensures
        r@ == b@.subrange(start as int, end as int),
{
    let mut r: Vec<u8> = Vec::new();
    r.extend_from_slice(&b[start..end]);
    assert(r@ =~= b@.subrange(start as int, end as int));
    r
}

/// Parses the first message in `buf`. Returns `Ok(None)` while `buf` holds only part
/// of a message, and the message with the number of bytes it takes once it is whole.
pub fn parse_message(buf: &[u8]) -> (r: Result<Option<(Message, usize)>, ProtocolError>)
    ensures
        match r {
            Ok(Some((m, n))) => parse_spec(buf@) == Ok::<
                Option<(MessageView, int)>,
                ProtocolError,
            >(Some((m@, n as int))) && message_wf(m@) && 0 < n <= buf@.len(),
            Ok(None) => parse_spec(buf@) == Ok::<Option<(MessageView, int)>, ProtocolError>(None),
            Err(e) => parse_spec(buf@) == Err::<Option<(MessageView, int)>, ProtocolError>(e),
        },
{
    let len = buf.len();
    if len < 2 {
        return Ok(None);
    }
    if buf[0] == 0x52 && buf[1] == 0x46 {
        if len < 14 {
            return Ok(None);
        }
        let width = read_u16(buf, 2);
        let height = read_u16(buf, 4);
        let timestamp_us = read_u64(buf, 6);
        assert(width * height <= 0xffff * 0xffff) by (nonlinear_arith)
            requires
                width <= 0xffff,
                height <= 0xffff,
        ;
        let n = width as u64 * height as u64 * 3;
        if (len as u64) < 14 + n {
            return Ok(None);
        }
        let end = 14 + n as usize;
        let rgb_data = copy_range(buf, 14, end);
        Ok(Some((Message::Frame { width, height, timestamp_us, rgb_data }, end)))
    } else if buf[0] == 0x52 && buf[1] == 0x41 {
        if len < 6 {
            return Ok(None);
        }
        let n = read_u32(buf, 2) as u64;
        if (len as u64) < 6 + n {
            return Ok(None);
        }
        let end = 6 + n as usize;
        Ok(Some((Message::Audio(copy_range(buf, 6, end)), end)))
    } else if buf[0] == 0x52 && buf[1] == 0x43 {
        if len < 3 {
            return Ok(None);
        }
        let cmd = match buf[2] {
            0 => ControlCmd::Stop,
            1 => ControlCmd::Start,
            2 => ControlCmd::Ready,
            other => {
                return Err(ProtocolError::UnknownControl(other));
            },
        };
        Ok(Some((Message::Control(cmd), 3)))
    } else {
        Err(ProtocolError::UnknownTag(buf[0], buf[1]))
    }
}

} // verus!
