//! 16-bit PCM WAV framing: a RIFF header followed by the samples in
//! little-endian byte order.
use vstd::prelude::*;

verus! {

/// Two bytes of `x`, least significant first.
pub open spec fn u16_le(x: u16) -> Seq<u8> {
    seq![(x % 256) as u8, (x / 256) as u8]
}

/// Four bytes of `x`, least significant first.
pub open spec fn u32_le(x: u32) -> Seq<u8> {
    seq![
        (x % 256) as u8,
        ((x / 256) % 256) as u8,
        ((x / 65536) % 256) as u8,
        (x / 16777216) as u8,
    ]
}

/// The samples of `pcm`, each as its two's-complement 16-bit pattern in
/// little-endian order.
pub open spec fn pcm_bytes(pcm: Seq<i16>) -> Seq<u8>
    decreases pcm.len(),
{
    if pcm.len() == 0 {
        Seq::empty()
    } else {
        pcm_bytes(pcm.drop_last()) + u16_le(pcm.last() as u16)
    }
}

/// "RIFF"
pub open spec fn riff_tag() -> Seq<u8> {
    seq![0x52u8, 0x49u8, 0x46u8, 0x46u8]
}

/// "WAVE"
pub open spec fn wave_tag() -> Seq<u8> {
    seq![0x57u8, 0x41u8, 0x56u8, 0x45u8]
}

/// "fmt "
pub open spec fn fmt_tag() -> Seq<u8> {
    seq![0x66u8, 0x6du8, 0x74u8, 0x20u8]
}

/// "data"
pub open spec fn data_tag() -> Seq<u8> {
    seq![0x64u8, 0x61u8, 0x74u8, 0x61u8]
}

/// Size of the data chunk recorded in the header: two bytes per sample,
/// kept to 32 bits.
pub open spec fn data_size(n_samples: nat) -> u32 {
    (n_samples * 2) as u32
}

/// The 44-byte header of a 16-bit PCM WAV file with `n_samples` samples.
pub open spec fn wav_header(n_samples: nat, sample_rate: u32, channels: u16) -> Seq<u8> {
    let size = data_size(n_samples);
    riff_tag() + u32_le((36 + size) as u32) + wave_tag() + fmt_tag() + u32_le(16) + u16_le(1)
        + u16_le(channels) + u32_le(sample_rate) + u32_le((sample_rate * channels * 2) as u32)
        + u16_le((channels * 2) as u16) + u16_le(16) + data_tag() + u32_le(size)
}

/// The whole WAV file for `pcm`.
pub open spec fn wav_file(pcm: Seq<i16>, sample_rate: u32, channels: u16) -> Seq<u8> {
    wav_header(pcm.len(), sample_rate, channels) + pcm_bytes(pcm)
}

/// The inputs on which the header's fields fit their widths: the RIFF size,
/// the byte rate and the block alignment.
pub open spec fn wav_fits(n_samples: nat, sample_rate: u32, channels: u16) -> bool {
    &&& data_size(n_samples) + 36 <= u32::MAX
    &&& sample_rate * channels * 2 <= u32::MAX
    &&& channels * 2 <= u16::MAX
}


/// The 16-bit little-endian value at `off` in `b`.
pub open spec fn read_u16_le(b: Seq<u8>, off: int) -> u16 {
    (b[off] + 256 * b[off + 1]) as u16
}

/// The 32-bit little-endian value at `off` in `b`.
pub open spec fn read_u32_le(b: Seq<u8>, off: int) -> u32 {
    (b[off] + 256 * b[off + 1] + 65536 * b[off + 2] + 16777216 * b[off + 3]) as u32
}

/// Reading back two little-endian bytes gives the value they were made from.
pub proof fn lemma_u16_le_roundtrip(x: u16)
    ensures
        u16_le(x).len() == 2,
        read_u16_le(u16_le(x), 0) == x,
{
    assert(x / 256 < 256);
}

/// Reading back four little-endian bytes gives the value they were made from.
pub proof fn lemma_u32_le_roundtrip(x: u32)
    ensures
        u32_le(x).len() == 4,
        read_u32_le(u32_le(x), 0) == x,
{
    assert(x / 16777216 < 256);
}

/// A sample's 16-bit pattern, read back as a signed value, is the sample.
pub proof fn lemma_i16_pattern_roundtrip(s: i16)
    ensures
        (s as u16) as i16 == s,
{
    assert((s as u16) as i16 == s) by (bit_vector);
}

/// Sample `i` of `pcm` occupies bytes `2 * i` and `2 * i + 1` of its encoding.
pub proof fn lemma_pcm_bytes_index(pcm: Seq<i16>, i: int)
    requires
        0 <= i < pcm.len(),
    ensures
        pcm_bytes(pcm).len() == 2 * pcm.len(),
        pcm_bytes(pcm)[2 * i] == u16_le(pcm[i] as u16)[0],
        pcm_bytes(pcm)[2 * i + 1] == u16_le(pcm[i] as u16)[1],
    decreases pcm.len(),
{
    lemma_pcm_bytes_len(pcm);
    if i < pcm.len() - 1 {
        lemma_pcm_bytes_index(pcm.drop_last(), i);
    }
}

/// The encoding of `pcm` is two bytes per sample.
pub proof fn lemma_pcm_bytes_len(pcm: Seq<i16>)
    ensures
        pcm_bytes(pcm).len() == 2 * pcm.len(),
    decreases pcm.len(),
{
    if pcm.len() > 0 {
        lemma_pcm_bytes_len(pcm.drop_last());
    }
}

/// Layout of an encoded file: it is 44 bytes of header followed by two bytes
/// per sample; the header holds the RIFF, WAVE, `fmt ` and `data` tags, the
/// PCM format code 1, the channel count, the sample rate, the byte rate
/// (rate times channels times two), the block alignment (channels times two),
/// 16 bits per sample and the data size; and every sample reads back from
/// its place in the data chunk. Where the data size fits in 32 bits, the
/// RIFF size is the file's length less eight and the data size is the
/// length of the sample bytes.
pub proof fn law_wav_layout(pcm: Seq<i16>, sample_rate: u32, channels: u16)
    requires
        wav_fits(pcm.len(), sample_rate, channels),
    ensures
        ({
            let w = wav_file(pcm, sample_rate, channels);
            let size = data_size(pcm.len());
            &&& w.len() == 44 + 2 * pcm.len()
            &&& w.subrange(0, 4) == riff_tag()
            &&& read_u32_le(w, 4) == 36 + size
            &&& w.subrange(8, 12) == wave_tag()
            &&& w.subrange(12, 16) == fmt_tag()
            &&& read_u32_le(w, 16) == 16
            &&& read_u16_le(w, 20) == 1
            &&& read_u16_le(w, 22) == channels
            &&& read_u32_le(w, 24) == sample_rate
            &&& read_u32_le(w, 28) == sample_rate * channels * 2
            &&& read_u16_le(w, 32) == channels * 2
            &&& read_u16_le(w, 34) == 16
            &&& w.subrange(36, 40) == data_tag()
            &&& read_u32_le(w, 40) == size
            &&& (forall|i: int|
                0 <= i < pcm.len() ==> #[trigger] read_u16_le(w, 44 + 2 * i) as i16 == pcm[i])
            &&& (pcm.len() * 2 <= u32::MAX ==> size == 2 * pcm.len() && read_u32_le(w, 4) == w.len()
                - 8)
        }),
{
    let w = wav_file(pcm, sample_rate, channels);
    let h = wav_header(pcm.len(), sample_rate, channels);
    let size = data_size(pcm.len());
    lemma_pcm_bytes_len(pcm);
    lemma_u32_le_roundtrip((36 + size) as u32);
    lemma_u32_le_roundtrip(16);
    lemma_u16_le_roundtrip(1);
    lemma_u16_le_roundtrip(channels);
    lemma_u32_le_roundtrip(sample_rate);
    lemma_u32_le_roundtrip((sample_rate * channels * 2) as u32);
    lemma_u16_le_roundtrip((channels * 2) as u16);
    lemma_u16_le_roundtrip(16);
    lemma_u32_le_roundtrip(size);
    assert(h.len() == 44);
    assert(w.subrange(0, 4) =~= riff_tag());
    assert(w.subrange(8, 12) =~= wave_tag());
    assert(w.subrange(12, 16) =~= fmt_tag());
    assert(w.subrange(36, 40) =~= data_tag());
    assert(w.subrange(4, 8) =~= u32_le((36 + size) as u32));
    assert(w.subrange(16, 20) =~= u32_le(16));
    assert(w.subrange(20, 22) =~= u16_le(1));
    assert(w.subrange(22, 24) =~= u16_le(channels));
    assert(w.subrange(24, 28) =~= u32_le(sample_rate));
    assert(w.subrange(28, 32) =~= u32_le((sample_rate * channels * 2) as u32));
    assert(w.subrange(32, 34) =~= u16_le((channels * 2) as u16));
    assert(w.subrange(34, 36) =~= u16_le(16));
    assert(w.subrange(40, 44) =~= u32_le(size));
    assert forall|i: int| 0 <= i < pcm.len() implies #[trigger] read_u16_le(w, 44 + 2 * i) as i16
        == pcm[i] by {
        lemma_pcm_bytes_index(pcm, i);
        lemma_u16_le_roundtrip(pcm[i] as u16);
        lemma_i16_pattern_roundtrip(pcm[i]);
        assert(w[44 + 2 * i] == pcm_bytes(pcm)[2 * i]);
        assert(w[44 + 2 * i + 1] == pcm_bytes(pcm)[2 * i + 1]);
    }
}

fn push_u16_le(out: &mut Vec<u8>, x: u16)
    ensures
        final(out)@ == old(out)@ + u16_le(x),
{
    out.push((x % 256) as u8);
    out.push((x / 256) as u8);
    assert(final(out)@ =~= old(out)@ + u16_le(x));
}

fn push_u32_le(out: &mut Vec<u8>, x: u32)
    ensures
        final(out)@ == old(out)@ + u32_le(x),
{
    out.push((x % 256) as u8);
    out.push(((x / 256) % 256) as u8);
    out.push(((x / 65536) % 256) as u8);
    out.push((x / 16777216) as u8);
    assert(final(out)@ =~= old(out)@ + u32_le(x));
}

fn push_tag(out: &mut Vec<u8>, a: u8, b: u8, c: u8, d: u8)
    ensures
        final(out)@ == old(out)@ + seq![a, b, c, d],
{
    out.push(a);
    out.push(b);
    out.push(c);
    out.push(d);
    assert(final(out)@ =~= old(out)@ + seq![a, b, c, d]);
}

proof fn lemma_pcm_bytes_step(pcm: Seq<i16>, i: int)
    requires
        0 <= i < pcm.len(),
    ensures
        pcm_bytes(pcm.take(i + 1)) == pcm_bytes(pcm.take(i)) + u16_le(pcm[i] as u16),
{
    assert(pcm.take(i + 1).drop_last() =~= pcm.take(i));
}

/// Whether `n_samples` samples at `sample_rate` and `channels` can be
/// encoded: twice the count fits in `usize`, and the header's fields fit
/// their widths.
pub fn encodable(n_samples: usize, sample_rate: u32, channels: u16) -> (ok: bool)
    ensures
        ok == (n_samples * 2 <= usize::MAX && wav_fits(n_samples as nat, sample_rate, channels)),
{
    if n_samples > usize::MAX / 2 {
        return false;
    }
    let size: u32 = #[verifier::truncate] ((n_samples * 2) as u32);
    assert((sample_rate as u64) * (channels as u64) <= 0xffff_ffff * 0xffff) by (nonlinear_arith);
    let byte_rate: u64 = (sample_rate as u64) * (channels as u64) * 2;
    (size as u64) + 36 <= u32::MAX as u64 && byte_rate <= u32::MAX as u64 && (channels as u32) * 2
        <= u16::MAX as u32
}

/// Encodes 16-bit samples as a PCM WAV file: the RIFF header, the `fmt `
/// chunk (PCM, `channels`, `sample_rate`, 16 bits per sample) and the `data`
/// chunk holding every sample in little-endian order.
pub fn encode_wav(pcm: &[i16], sample_rate: u32, channels: u16) -> (wav: Vec<u8>)
    requires
        pcm@.len() * 2 <= usize::MAX,
        wav_fits(pcm@.len(), sample_rate, channels),
    ensures
        wav@ == wav_file(pcm@, sample_rate, channels),
{
    let data_size: u32 = #[verifier::truncate] ((pcm.len() * 2) as u32);
    let mut wav: Vec<u8> = Vec::new();

    push_tag(&mut wav, 0x52, 0x49, 0x46, 0x46);
    push_u32_le(&mut wav, 36 + data_size);
    push_tag(&mut wav, 0x57, 0x41, 0x56, 0x45);

    push_tag(&mut wav, 0x66, 0x6d, 0x74, 0x20);
    push_u32_le(&mut wav, 16);
    push_u16_le(&mut wav, 1);
    push_u16_le(&mut wav, channels);
    push_u32_le(&mut wav, sample_rate);
    let byte_rate: u32 = sample_rate * (channels as u32) * 2;
    push_u32_le(&mut wav, byte_rate);
    let block_align: u16 = channels * 2;
    push_u16_le(&mut wav, block_align);
    push_u16_le(&mut wav, 16);

    push_tag(&mut wav, 0x64, 0x61, 0x74, 0x61);
    push_u32_le(&mut wav, data_size);

    let ghost header = wav@;
    assert(header =~= wav_header(pcm@.len(), sample_rate, channels));
    assert(pcm@.take(0) =~= Seq::<i16>::empty());

    let n: usize = pcm.len();
    let mut i: usize = 0;
    while i < n
        invariant
            n == pcm@.len(),
            i <= n,
            header == wav_header(pcm@.len(), sample_rate, channels),
            wav@ == header + pcm_bytes(pcm@.take(i as int)),
        decreases n - i,
    {
        proof {
            lemma_pcm_bytes_step(pcm@, i as int);
        }
        push_u16_le(&mut wav, pcm[i] as u16);
        assert(wav@ =~= header + pcm_bytes(pcm@.take(i + 1)));
        i = i + 1;
    }
    assert(pcm@.take(n as int) =~= pcm@);
    wav
}

} // verus!
