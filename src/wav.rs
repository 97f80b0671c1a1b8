//! The header that finalizes a recording: a canonical 44-byte RIFF/WAVE
//! header for mono 16-bit PCM.
use vstd::prelude::*;

verus! {

/// Largest audio length a header can state: the RIFF size `36 + len` must
/// fit in 32 bits.
pub const MAX_DATA_LEN: u32 = 4294967259;

/// `x` as four little-endian bytes.
pub open spec fn le32(x: u32) -> Seq<u8> {
    seq![(x % 256) as u8, ((x / 256) % 256) as u8, ((x / 65536) % 256) as u8, (x / 16777216) as u8]
}

/// `x` as two little-endian bytes.
pub open spec fn le16(x: u16) -> Seq<u8> {
    seq![(x % 256) as u8, (x / 256) as u8]
}

/// The four ASCII bytes of a chunk tag.
pub open spec fn tag(a: char, b: char, c: char, d: char) -> Seq<u8> {
    seq![a as u8, b as u8, c as u8, d as u8]
}

/// The audio length a header states for `bytes` bytes of samples: all of
/// them, or `MAX_DATA_LEN` where there are more.
pub open spec fn data_len(bytes: u64) -> u32 {
    if bytes > MAX_DATA_LEN as u64 { MAX_DATA_LEN } else { bytes as u32 }
}

/// Bytes per second of mono 16-bit audio at `rate`, saturating at the
/// largest 32-bit value.
pub open spec fn byte_rate(rate: u32) -> u32 {
    if rate as int * 2 > u32::MAX { u32::MAX } else { (rate * 2) as u32 }
}

/// The header of a mono 16-bit PCM recording at `rate` samples per second
/// holding `bytes` bytes of samples.
pub open spec fn wav_header_bytes(rate: u32, bytes: u64) -> Seq<u8> {
    tag('R', 'I', 'F', 'F') + le32((36 + data_len(bytes)) as u32) + tag('W', 'A', 'V', 'E')
        + tag('f', 'm', 't', ' ') + le32(16) + le16(1) + le16(1) + le32(rate) + le32(byte_rate(rate))
        + le16(2) + le16(16) + tag('d', 'a', 't', 'a') + le32(data_len(bytes))
}

fn push_le32(v: &mut Vec<u8>, x: u32)
    ensures
        final(v)@ == old(v)@ + le32(x),
{
    v.push((x % 256) as u8);
    v.push(((x / 256) % 256) as u8);
    v.push(((x / 65536) % 256) as u8);
    v.push((x / 16777216) as u8);
    assert(final(v)@ =~= old(v)@ + le32(x));
}

fn push_le16(v: &mut Vec<u8>, x: u16)
    ensures
        final(v)@ == old(v)@ + le16(x),
{
    v.push((x % 256) as u8);
    v.push((x / 256) as u8);
    assert(final(v)@ =~= old(v)@ + le16(x));
}

fn push_tag(v: &mut Vec<u8>, a: char, b: char, c: char, d: char)
    requires
        (a as u32) < 128,
        (b as u32) < 128,
        (c as u32) < 128,
        (d as u32) < 128,
    ensures
        final(v)@ == old(v)@ + tag(a, b, c, d),
{
    v.push(a as u8);
    v.push(b as u8);
    v.push(c as u8);
    v.push(d as u8);
    assert(final(v)@ =~= old(v)@ + tag(a, b, c, d));
}

/// The header to put in front of a finished recording of `bytes` bytes of
/// mono 16-bit samples at `sample_rate`.
pub fn wav_header(sample_rate: u32, bytes: u64) -> (r: Vec<u8>)
    ensures
        r@ == wav_header_bytes(sample_rate, bytes),
        r@.len() == 44,
{
    let len: u32 = if bytes > MAX_DATA_LEN as u64 { MAX_DATA_LEN } else { bytes as u32 };
    let rate2: u32 = if sample_rate > u32::MAX / 2 { u32::MAX } else { sample_rate * 2 };
    let mut v: Vec<u8> = Vec::new();
    push_tag(&mut v, 'R', 'I', 'F', 'F');
    push_le32(&mut v, 36 + len);
    push_tag(&mut v, 'W', 'A', 'V', 'E');
    push_tag(&mut v, 'f', 'm', 't', ' ');
    push_le32(&mut v, 16);
    push_le16(&mut v, 1);
    push_le16(&mut v, 1);
    push_le32(&mut v, sample_rate);
    push_le32(&mut v, rate2);
    push_le16(&mut v, 2);
    push_le16(&mut v, 16);
    push_tag(&mut v, 'd', 'a', 't', 'a');
    push_le32(&mut v, len);
    assert(v@ =~= wav_header_bytes(sample_rate, bytes));
    v
}

} // verus!
