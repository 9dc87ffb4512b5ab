//! Framing of 16-bit mono PCM samples as a RIFF/WAVE file.

use vstd::prelude::*;

verus! {

/// Bytes of the WAVE header before the samples.
pub const WAV_HEADER_LEN: usize = 44;

/// Largest sample rate and sample count that the 32-bit header fields hold.
pub const MAX_SAMPLE_RATE: u32 = 0x7fff_ffff;

pub const MAX_SAMPLES: usize = 0x7fff_ffe0;

/// Little-endian bytes of a 16-bit value.
pub open spec fn le16(x: int) -> Seq<u8> {
    seq![(x % 256) as u8, ((x / 256) % 256) as u8]
}

/// Little-endian bytes of a 32-bit value.
pub open spec fn le32(x: int) -> Seq<u8> {
    le16(x % 0x1_0000) + le16(x / 0x1_0000)
}

/// The 44-byte header of a mono 16-bit PCM file of `n` samples at rate `sr`.
pub open spec fn wav_header(sr: int, n: int) -> Seq<u8> {
    seq![0x52u8, 0x49, 0x46, 0x46] + le32(36 + 2 * n) + seq![0x57u8, 0x41, 0x56, 0x45]
        + seq![0x66u8, 0x6d, 0x74, 0x20] + le32(16) + le16(1) + le16(1) + le32(sr) + le32(2 * sr)
        + le16(2) + le16(16) + seq![0x64u8, 0x61, 0x74, 0x61] + le32(2 * n)
}

/// The samples, each as two little-endian bytes of its two's complement.
pub open spec fn sample_bytes(s: Seq<i16>) -> Seq<u8>
    decreases s.len(),
{
    if s.len() == 0 {
        Seq::empty()
    } else {
        sample_bytes(s.drop_last()) + le16(s.last() as u16 as int)
    }
}

pub open spec fn wav_spec(samples: Seq<i16>, sr: int) -> Seq<u8> {
    wav_header(sr, samples.len() as int) + sample_bytes(samples)
}

fn push_le16(out: &mut Vec<u8>, x: u16)
    ensures
        final(out)@ == old(out)@ + le16(x as int),
{
    out.push((x % 256) as u8);
    out.push((x / 256) as u8);
    assert(final(out)@ =~= old(out)@ + le16(x as int));
}

fn push_le32(out: &mut Vec<u8>, x: u32)
    ensures
        final(out)@ == old(out)@ + le32(x as int),
{
    let ghost start = out@;
    push_le16(out, (x % 0x1_0000) as u16);
    push_le16(out, (x / 0x1_0000) as u16);
    assert(out@ =~= start + le32(x as int));
}

fn push_tag(out: &mut Vec<u8>, a: u8, b: u8, c: u8, d: u8)
    ensures
        final(out)@ == old(out)@ + seq![a, b, c, d],
{
    out.push(a);
    out.push(b);
    out.push(c);
    out.push(d);
    assert(final(out)@ =~= old(out)@ + seq![a, b, c, d]);
}

/// A RIFF/WAVE file holding `samples` as mono 16-bit PCM at `sample_rate`.
pub fn wav_bytes(samples: &Vec<i16>, sample_rate: u32) -> (r: Vec<u8>)
    requires
        samples@.len() <= MAX_SAMPLES,
        sample_rate <= MAX_SAMPLE_RATE,
    ensures
        r@ == wav_spec(samples@, sample_rate as int),
        r@.len() == WAV_HEADER_LEN + 2 * samples@.len(),
{
    let data_len: u32 = (samples.len() * 2) as u32;
    let mut out: Vec<u8> = Vec::new();
    push_tag(&mut out, 0x52, 0x49, 0x46, 0x46);
    push_le32(&mut out, 36 + data_len);
    push_tag(&mut out, 0x57, 0x41, 0x56, 0x45);
    push_tag(&mut out, 0x66, 0x6d, 0x74, 0x20);
    push_le32(&mut out, 16);
    push_le16(&mut out, 1);
    push_le16(&mut out, 1);
    push_le32(&mut out, sample_rate);
    push_le32(&mut out, sample_rate * 2);
    push_le16(&mut out, 2);
    push_le16(&mut out, 16);
    push_tag(&mut out, 0x64, 0x61, 0x74, 0x61);
    push_le32(&mut out, data_len);
    let ghost header = out@;
    assert(header =~= wav_header(sample_rate as int, samples@.len() as int));
    let mut i: usize = 0;
    while i < samples.len()
        invariant
            i <= samples@.len(),
            out@ == header + sample_bytes(samples@.take(i as int)),
        decreases samples@.len() - i,
    {
        proof {
            assert(samples@.take(i as int + 1).drop_last() =~= samples@.take(i as int));
        }
        push_le16(&mut out, samples[i] as u16);
        proof {
            assert(out@ =~= header + sample_bytes(samples@.take(i as int + 1)));
        }
        i = i + 1;
    }
    proof {
        assert(samples@.take(i as int) =~= samples@);
        lemma_sample_bytes_len(samples@);
    }
    out
}

proof fn lemma_sample_bytes_len(s: Seq<i16>)
    ensures
        sample_bytes(s).len() == 2 * s.len(),
    decreases s.len(),
{
    if s.len() > 0 {
        lemma_sample_bytes_len(s.drop_last());
    }
}

} // verus!
