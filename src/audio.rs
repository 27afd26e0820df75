//! PCM s16le helpers: the in-memory WAV wrapper used for offline playback, and sample
//! decoding for the live stream.
use vstd::prelude::*;
use crate::le::{le_u16_bytes, le_u32_bytes, push_u16, push_u32, read_u16, u16_of};

verus! {

/// The 44-byte RIFF/WAVE header of 16-bit PCM data of `len` bytes, followed by the data.
pub open spec fn wav_bytes(pcm: Seq<u8>, sample_rate: u32, channels: u16) -> Seq<u8> {
    seq![0x52u8, 0x49u8, 0x46u8, 0x46u8] + le_u32_bytes((36 + pcm.len()) as u32) + seq![
        0x57u8,
        0x41u8,
        0x56u8,
        0x45u8,
    ] + seq![0x66u8, 0x6du8, 0x74u8, 0x20u8] + le_u32_bytes(16) + le_u16_bytes(1) + le_u16_bytes(
        channels,
    ) + le_u32_bytes(sample_rate) + le_u32_bytes((sample_rate * channels * 2) as u32)
        + le_u16_bytes((channels * 2) as u16) + le_u16_bytes(16) + seq![
        0x64u8,
        0x61u8,
        0x74u8,
        0x61u8,
    ] + le_u32_bytes(pcm.len() as u32) + pcm
}

/// Wraps raw PCM s16le data in a minimal WAV header.
pub fn wrap_pcm_as_wav(pcm: Vec<u8>, sample_rate: u32, channels: u16) -> (r: Vec<u8>)
    requires
        pcm@.len() + 36 <= u32::MAX,
        sample_rate * channels * 2 <= u32::MAX,
        channels * 2 <= u16::MAX,
    ensures
        r@ == wav_bytes(pcm@, sample_rate, channels),
{
    let data_len = pcm.len() as u32;
    let bits_per_sample: u16 = 16;
    proof {
        assert(sample_rate * channels <= sample_rate * channels * 2) by (nonlinear_arith)
            requires
                sample_rate >= 0,
                channels >= 0,
        ;
    }
    let byte_rate = sample_rate * channels as u32 * (bits_per_sample as u32 / 8);
    let block_align = channels * (bits_per_sample / 8);
    let file_size = 36 + data_len;
    let mut wav: Vec<u8> = Vec::new();
    wav.push(0x52);
    wav.push(0x49);
    wav.push(0x46);
    wav.push(0x46);
    push_u32(&mut wav, file_size);
    wav.push(0x57);
    wav.push(0x41);
    wav.push(0x56);
    wav.push(0x45);
    wav.push(0x66);
    wav.push(0x6d);
    wav.push(0x74);
    wav.push(0x20);
    push_u32(&mut wav, 16);
    push_u16(&mut wav, 1);
    push_u16(&mut wav, channels);
    push_u32(&mut wav, sample_rate);
    push_u32(&mut wav, byte_rate);
    push_u16(&mut wav, block_align);
    push_u16(&mut wav, bits_per_sample);
    wav.push(0x64);
    wav.push(0x61);
    wav.push(0x74);
    wav.push(0x61);
    push_u32(&mut wav, data_len);
    let ghost data = pcm@;
    let mut pcm = pcm;
    wav.append(&mut pcm);
    assert(wav@ =~= wav_bytes(data, sample_rate, channels));
    wav
}

/// The signed 16-bit samples of little-endian PCM bytes; an odd last byte is dropped.
pub open spec fn samples_of(data: Seq<u8>) -> Seq<i16> {
    Seq::new(data.len() / 2, |i: int| u16_of(data[2 * i], data[2 * i + 1]) as i16)
}

/// Decodes PCM s16le bytes into samples.
pub fn pcm_samples(data: &[u8]) -> (r: Vec<i16>)
    ensures
        r@ == samples_of(data@),
{
    let n = data.len() / 2;
    let mut out: Vec<i16> = Vec::new();
    let mut i: usize = 0;
    while i < n
        invariant
            n == data@.len() / 2,
            data@.len() <= usize::MAX,
            i <= n,
            out@ == samples_of(data@).take(i as int),
        decreases n - i,
    {
        let v = read_u16(data, 2 * i);
        out.push(v as i16);
        i = i + 1;
        assert(out@ =~= samples_of(data@).take(i as int));
    }
    assert(samples_of(data@).take(i as int) =~= samples_of(data@));
    out
}

} // verus!
