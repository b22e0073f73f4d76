//! PCM to WAV conversion.

use vstd::prelude::*;

use crate::config::{BITS_PER_SAMPLE, CHANNELS, SAMPLE_RATE};

verus! {

/// Little-endian bytes of a 32-bit value.
pub open spec fn le32(x: u32) -> Seq<u8> {
    seq![
        (x % 256) as u8,
        ((x / 256) % 256) as u8,
        ((x / 65536) % 256) as u8,
        (x / 16777216) as u8,
    ]
}

/// Little-endian bytes of a 16-bit value.
pub open spec fn le16(x: u16) -> Seq<u8> {
    seq![(x % 256) as u8, (x / 256) as u8]
}

/// The four ASCII bytes of a chunk tag.
pub open spec fn tag4(a: char, b: char, c: char, d: char) -> Seq<u8> {
    seq![a as u8, b as u8, c as u8, d as u8]
}

/// The 44-byte canonical WAV header of mono 16-bit PCM at `sample_rate`
/// with `data_size` bytes of samples.
pub open spec fn wav_header(sample_rate: u32, data_size: u32) -> Seq<u8> {
    tag4('R', 'I', 'F', 'F') + le32((36 + data_size) as u32) + tag4('W', 'A', 'V', 'E')
        + tag4('f', 'm', 't', ' ') + le32(16) + le16(1) + le16(CHANNELS)
        + le32(sample_rate) + le32((sample_rate * 2) as u32) + le16(2) + le16(BITS_PER_SAMPLE)
        + tag4('d', 'a', 't', 'a') + le32(data_size)
}

/// The WAV file for `pcm` at `sample_rate`: the header, then the samples.
/// The data size field holds the length truncated to 32 bits.
pub open spec fn wav_file(pcm: Seq<u8>, sample_rate: u32) -> Seq<u8> {
    wav_header(sample_rate, pcm.len() as u32) + pcm
}

fn push_le32(v: &mut Vec<u8>, x: u32)
    ensures
        final(v)@ == old(v)@ + le32(x),
{
    v.push((x % 256) as u8);
    v.push(((x / 256) % 256) as u8);
    v.push(((x / 65536) % 256) as u8);
    v.push((x / 16777216) as u8);
    assert(v@ =~= old(v)@ + le32(x));
}

fn push_le16(v: &mut Vec<u8>, x: u16)
    ensures
        final(v)@ == old(v)@ + le16(x),
{
    v.push((x % 256) as u8);
    v.push((x / 256) as u8);
    assert(v@ =~= old(v)@ + le16(x));
}

fn push_tag(v: &mut Vec<u8>, a: char, b: char, c: char, d: char)
    requires
        a <= '\u{7f}', b <= '\u{7f}', c <= '\u{7f}', d <= '\u{7f}',
    ensures
        final(v)@ == old(v)@ + tag4(a, b, c, d),
{
    v.push(a as u8);
    v.push(b as u8);
    v.push(c as u8);
    v.push(d as u8);
    assert(v@ =~= old(v)@ + tag4(a, b, c, d));
}

/// Wraps `pcm` (mono s16le at the pipeline sample rate) in a WAV header.
pub fn pcm_to_wav(pcm: &[u8]) -> (wav: Vec<u8>)
    requires
        (pcm@.len() as u32) + 36 <= u32::MAX,
    ensures
        wav@ == wav_file(pcm@, SAMPLE_RATE),
{
    pcm_to_wav_at(pcm, SAMPLE_RATE)
}

/// Wraps `pcm` (mono s16le at `sample_rate`) in a WAV header.
pub fn pcm_to_wav_at(pcm: &[u8], sample_rate: u32) -> (wav: Vec<u8>)
    requires
        (pcm@.len() as u32) + 36 <= u32::MAX,
        sample_rate * 2 <= u32::MAX,
    ensures
        wav@ == wav_file(pcm@, sample_rate),
{
    let byte_rate = sample_rate * (BITS_PER_SAMPLE as u32 / 8) * CHANNELS as u32;
    let block_align = CHANNELS * (BITS_PER_SAMPLE / 8);
    let data_size = pcm.len() as u32;

    let mut wav: Vec<u8> = Vec::new();
    push_tag(&mut wav, 'R', 'I', 'F', 'F');
    push_le32(&mut wav, 36 + data_size);
    push_tag(&mut wav, 'W', 'A', 'V', 'E');
    push_tag(&mut wav, 'f', 'm', 't', ' ');
    push_le32(&mut wav, 16);
    push_le16(&mut wav, 1);
    push_le16(&mut wav, CHANNELS);
    push_le32(&mut wav, sample_rate);
    push_le32(&mut wav, byte_rate);
    push_le16(&mut wav, block_align);
    push_le16(&mut wav, BITS_PER_SAMPLE);
    push_tag(&mut wav, 'd', 'a', 't', 'a');
    push_le32(&mut wav, data_size);
    let ghost header = wav@;
    let mut i: usize = 0;
    while i < pcm.len()
        invariant
            i <= pcm@.len(),
            wav@ == header + pcm@.subrange(0, i as int),
        decreases pcm@.len() - i,
    {
        wav.push(pcm[i]);
        i = i + 1;
    }
    assert(pcm@.subrange(0, pcm@.len() as int) =~= pcm@);
    assert(header =~= wav_header(sample_rate, pcm@.len() as u32));
    wav
}

/// The header is always 44 bytes and the samples follow it unchanged.
pub proof fn lemma_wav_layout(pcm: Seq<u8>, sample_rate: u32)
    ensures
        wav_file(pcm, sample_rate).len() == 44 + pcm.len(),
        wav_file(pcm, sample_rate).subrange(44, 44 + pcm.len() as int) == pcm,
        wav_file(pcm, sample_rate).subrange(40, 44) == le32(pcm.len() as u32),
{
    assert(wav_file(pcm, sample_rate).subrange(44, 44 + pcm.len() as int) =~= pcm);
    assert(wav_file(pcm, sample_rate).subrange(40, 44) =~= le32(pcm.len() as u32));
}

} // verus!
