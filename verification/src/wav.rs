//! Little-endian 16-bit PCM and the 44-byte RIFF/WAVE header.
use vstd::prelude::*;

verus! {

/// The two's-complement value of a sample, read as an unsigned 16-bit number.
pub open spec fn u16_of_i16(s: i16) -> int {
    if s < 0 { s + 65536 } else { s as int }
}

/// The two little-endian bytes of one sample.
pub open spec fn le_i16_bytes(s: i16) -> Seq<u8> {
    seq![(u16_of_i16(s) % 256) as u8, (u16_of_i16(s) / 256) as u8]
}

/// Samples as s16le: two bytes per sample, low byte first.
pub open spec fn pcm_bytes(samples: Seq<i16>) -> Seq<u8> {
    Seq::new(2 * samples.len(), |i: int| le_i16_bytes(samples[i / 2])[i % 2])
}

/// Encodes samples as little-endian signed 16-bit PCM.
pub fn pcm_s16le(samples: &[i16]) -> (out: Vec<u8>)
    requires
        samples@.len() <= usize::MAX / 2,
    ensures
        out@ == pcm_bytes(samples@),
{
    let mut out: Vec<u8> = Vec::with_capacity(samples.len() * 2);
    let n = samples.len();
    for i in 0..n
        invariant
            n == samples@.len(),
            out@.len() == 2 * i,
            forall|j: int| 0 <= j < 2 * i ==> #[trigger] out@[j] == le_i16_bytes(samples@[j / 2])[j % 2],
    {
        let s = samples[i];
        let u: u16 = if s < 0 { (s as i32 + 65536) as u16 } else { s as u16 };
        out.push((u % 256) as u8);
        out.push((u / 256) as u8);
        assert forall|j: int| 0 <= j < 2 * (i + 1) implies #[trigger] out@[j] == le_i16_bytes(samples@[j / 2])[j % 2] by {
            if j >= 2 * i {
                assert(j / 2 == i);
            }
        }
    }
    assert(out@ =~= pcm_bytes(samples@));
    out
}


/// Samples are encoded one by one, in order: the encoding of a concatenation
/// is the concatenation of the encodings, and no samples give no bytes.
pub proof fn lemma_pcm_concat(a: Seq<i16>, b: Seq<i16>)
    ensures
        pcm_bytes(a + b) == pcm_bytes(a) + pcm_bytes(b),
        pcm_bytes(Seq::<i16>::empty()) == Seq::<u8>::empty(),
{
    let ab = a + b;
    assert forall|i: int| 0 <= i < 2 * ab.len() implies #[trigger] pcm_bytes(ab)[i] == (pcm_bytes(a) + pcm_bytes(b))[i] by {
        if i >= 2 * a.len() {
            assert((i - 2 * a.len()) / 2 == i / 2 - a.len());
            assert((i - 2 * a.len()) % 2 == i % 2);
            assert(ab[i / 2] == b[i / 2 - a.len()]);
        } else {
            assert(ab[i / 2] == a[i / 2]);
        }
    }
    assert(pcm_bytes(ab) =~= pcm_bytes(a) + pcm_bytes(b));
    assert(pcm_bytes(Seq::<i16>::empty()) =~= Seq::<u8>::empty());
}

/// The four little-endian bytes of a 32-bit value.
pub open spec fn le_u32_bytes(v: u32) -> Seq<u8> {
    seq![
        (v % 256) as u8,
        ((v / 256) % 256) as u8,
        ((v / 65536) % 256) as u8,
        (v / 16777216) as u8,
    ]
}

/// The two little-endian bytes of a 16-bit value.
pub open spec fn le_u16_bytes(v: u16) -> Seq<u8> {
    seq![(v % 256) as u8, (v / 256) as u8]
}

/// The 44-byte header of a mono 16-bit PCM WAV file holding `data_len`
/// bytes of samples at `sample_rate` Hz.
pub open spec fn wav_header(data_len: u32, sample_rate: u32) -> Seq<u8> {
    seq![0x52u8, 0x49u8, 0x46u8, 0x46u8]  // "RIFF"
    + le_u32_bytes((36 + data_len) as u32)
    + seq![0x57u8, 0x41u8, 0x56u8, 0x45u8, 0x66u8, 0x6du8, 0x74u8, 0x20u8]  // "WAVEfmt "
    + le_u32_bytes(16)
    + le_u16_bytes(1)  // PCM
    + le_u16_bytes(1)  // mono
    + le_u32_bytes(sample_rate)
    + le_u32_bytes((sample_rate * 2) as u32)  // byte rate
    + le_u16_bytes(2)  // block align
    + le_u16_bytes(16)  // bits per sample
    + seq![0x64u8, 0x61u8, 0x74u8, 0x61u8]  // "data"
    + le_u32_bytes(data_len)
}

/// The length field that the header carries for `n` samples: the byte count
/// of the data, as a 32-bit field.
pub open spec fn wav_data_len(n: nat) -> u32 {
    (2 * n) as u32
}

/// A complete mono 16-bit PCM WAV file.
pub open spec fn wav_bytes(samples: Seq<i16>, sample_rate: u32) -> Seq<u8> {
    wav_header(wav_data_len(samples.len()), sample_rate) + pcm_bytes(samples)
}

/// The inputs on which the header arithmetic stays within 32 bits.
pub open spec fn wav_fits(n: nat, sample_rate: u32) -> bool {
    &&& 2 * n <= usize::MAX
    &&& 36 + wav_data_len(n) <= u32::MAX
    &&& 2 * sample_rate <= u32::MAX
}

fn push_u32_le(out: &mut Vec<u8>, v: u32)
    ensures
        final(out)@ == old(out)@ + le_u32_bytes(v),
{
    out.push((v % 256) as u8);
    out.push(((v / 256) % 256) as u8);
    out.push(((v / 65536) % 256) as u8);
    out.push((v / 16777216) as u8);
    assert(out@ =~= old(out)@ + le_u32_bytes(v));
}

fn push_u16_le(out: &mut Vec<u8>, v: u16)
    ensures
        final(out)@ == old(out)@ + le_u16_bytes(v),
{
    out.push((v % 256) as u8);
    out.push((v / 256) as u8);
    assert(out@ =~= old(out)@ + le_u16_bytes(v));
}

fn push_4(out: &mut Vec<u8>, a: u8, b: u8, c: u8, d: u8)
    ensures
        final(out)@ == old(out)@ + seq![a, b, c, d],
{
    out.push(a);
    out.push(b);
    out.push(c);
    out.push(d);
    assert(out@ =~= old(out)@ + seq![a, b, c, d]);
}

/// Encodes samples as a mono 16-bit PCM WAV file at `sample_rate` Hz: the
/// 44-byte header followed by the samples as s16le.
pub fn wav_encode(samples: &[i16], sample_rate: u32) -> (out: Vec<u8>)
    requires
        wav_fits(samples@.len(), sample_rate),
    ensures
        out@ == wav_bytes(samples@, sample_rate),
{
    let mut data = pcm_s16le(samples);
    let data_len = data.len() as u32;
    let mut out: Vec<u8> = Vec::new();
    push_4(&mut out, 0x52, 0x49, 0x46, 0x46);
    push_u32_le(&mut out, 36 + data_len);
    push_4(&mut out, 0x57, 0x41, 0x56, 0x45);
    push_4(&mut out, 0x66, 0x6d, 0x74, 0x20);
    push_u32_le(&mut out, 16);
    push_u16_le(&mut out, 1);
    push_u16_le(&mut out, 1);
    push_u32_le(&mut out, sample_rate);
    push_u32_le(&mut out, sample_rate * 2);
    push_u16_le(&mut out, 2);
    push_u16_le(&mut out, 16);
    push_4(&mut out, 0x64, 0x61, 0x74, 0x61);
    push_u32_le(&mut out, data_len);
    assert(out@ =~= wav_header(wav_data_len(samples@.len()), sample_rate));
    out.append(&mut data);
    out
}


/// The unsigned 32-bit little-endian number stored at `off`.
pub open spec fn read_u32_le(b: Seq<u8>, off: int) -> int {
    b[off] + 256 * b[off + 1] + 65536 * b[off + 2] + 16777216 * b[off + 3]
}

/// The unsigned 16-bit little-endian number stored at `off`.
pub open spec fn read_u16_le(b: Seq<u8>, off: int) -> int {
    b[off] + 256 * b[off + 1]
}

/// The signed 16-bit little-endian number stored at `off`.
pub open spec fn read_i16_le(b: Seq<u8>, off: int) -> int {
    let u = read_u16_le(b, off);
    if u >= 32768 { u - 65536 } else { u }
}

proof fn lemma_u32_bytes(v: u32)
    ensures
        read_u32_le(le_u32_bytes(v), 0) == v,
{
    assert((v % 256) + 256 * ((v / 256) % 256) + 65536 * ((v / 65536) % 256) + 16777216 * (v / 16777216) == v) by (nonlinear_arith);
}

proof fn lemma_i16_bytes(s: i16)
    ensures
        read_i16_le(le_i16_bytes(s), 0) == s,
{
}

/// Reading a sample back from PCM bytes gives the sample that was written:
/// sample `i` is the signed little-endian number at byte `2 * i`.
pub proof fn lemma_pcm_reads_back(samples: Seq<i16>, i: int)
    requires
        0 <= i < samples.len(),
    ensures
        pcm_bytes(samples).len() == 2 * samples.len(),
        read_i16_le(pcm_bytes(samples), 2 * i) == samples[i],
{
    let b = pcm_bytes(samples);
    lemma_i16_bytes(samples[i]);
    assert((2 * i) / 2 == i);
    assert((2 * i + 1) / 2 == i);
    assert(b[2 * i] == le_i16_bytes(samples[i])[0]);
    assert(b[2 * i + 1] == le_i16_bytes(samples[i])[1]);
}

/// A WAV file read back gives what was written: it is 44 bytes longer than
/// its data, it carries the chunk tags `RIFF`, `WAVEfmt ` and `data` at
/// bytes 0, 8 and 36, the header's fields hold the RIFF size, the format (PCM, mono,
/// 16 bits), the sample rate, the byte rate and the data length, and every
/// sample stands at its place after the header.
pub proof fn lemma_wav_reads_back(samples: Seq<i16>, sample_rate: u32)
    requires
        wav_fits(samples.len(), sample_rate),
    ensures
        ({
            let w = wav_bytes(samples, sample_rate);
            let n = samples.len();
            &&& w.len() == 44 + 2 * n
            &&& w.take(4) == seq![0x52u8, 0x49u8, 0x46u8, 0x46u8]
            &&& w.subrange(8, 16) == seq![0x57u8, 0x41u8, 0x56u8, 0x45u8, 0x66u8, 0x6du8, 0x74u8, 0x20u8]
            &&& w.subrange(36, 40) == seq![0x64u8, 0x61u8, 0x74u8, 0x61u8]
            &&& read_u32_le(w, 4) == 36 + wav_data_len(n)
            &&& read_u32_le(w, 16) == 16
            &&& read_u16_le(w, 20) == 1
            &&& read_u16_le(w, 22) == 1
            &&& read_u32_le(w, 24) == sample_rate
            &&& read_u32_le(w, 28) == 2 * sample_rate
            &&& read_u16_le(w, 32) == 2
            &&& read_u16_le(w, 34) == 16
            &&& read_u32_le(w, 40) == wav_data_len(n)
            &&& (2 * n <= u32::MAX ==> wav_data_len(n) == 2 * n)
            &&& forall|i: int| 0 <= i < n ==> read_i16_le(w, 44 + 2 * i) == #[trigger] samples[i]
        }),
{
    let n = samples.len();
    let dl = wav_data_len(n);
    let w = wav_bytes(samples, sample_rate);
    let h = wav_header(dl, sample_rate);
    lemma_u32_bytes((36 + dl) as u32);
    lemma_u32_bytes(16);
    lemma_u32_bytes(sample_rate);
    lemma_u32_bytes((sample_rate * 2) as u32);
    lemma_u32_bytes(dl);
    assert(h.len() == 44);
    assert(w.take(4) =~= seq![0x52u8, 0x49u8, 0x46u8, 0x46u8]);
    assert(w.subrange(8, 16) =~= seq![0x57u8, 0x41u8, 0x56u8, 0x45u8, 0x66u8, 0x6du8, 0x74u8, 0x20u8]);
    assert(w.subrange(36, 40) =~= seq![0x64u8, 0x61u8, 0x74u8, 0x61u8]);
    assert forall|i: int| 0 <= i < n implies read_i16_le(w, 44 + 2 * i) == #[trigger] samples[i] by {
        lemma_pcm_reads_back(samples, i);
        assert(w[44 + 2 * i] == pcm_bytes(samples)[2 * i]);
        assert(w[44 + 2 * i + 1] == pcm_bytes(samples)[2 * i + 1]);
    }
}

} // verus!
