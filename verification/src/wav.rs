//! RIFF/WAVE framing of PCM audio.
//!
//! Decoding reads the canonical header fields (channel count at byte 22,
//! sample rate at byte 24, bits per sample at byte 34), walks the chunk list
//! from byte 12 to the first `data` chunk, and returns the raw integer value
//! of every sample of every whole frame, interleaved by channel.  Encoding
//! writes a 44-byte header for mono 16-bit PCM followed by the samples.

use vstd::prelude::*;

verus! {

/// Little-endian unsigned 16-bit value at byte offset `i`.
pub open spec fn le16(b: Seq<u8>, i: int) -> int {
    b[i] + 256 * b[i + 1]
}

/// Little-endian unsigned 32-bit value at byte offset `i`.
pub open spec fn le32(b: Seq<u8>, i: int) -> int {
    b[i] + 256 * b[i + 1] + 65536 * b[i + 2] + 16777216 * b[i + 3]
}

/// The file starts with a `RIFF` tag, carries the `WAVE` form type and is at
/// least as long as a canonical header.
pub open spec fn is_riff_wave(w: Seq<u8>) -> bool {
    &&& w.len() >= 44
    &&& w[0] == 0x52 && w[1] == 0x49 && w[2] == 0x46 && w[3] == 0x46
    &&& w[8] == 0x57 && w[9] == 0x41 && w[10] == 0x56 && w[11] == 0x45
}

/// Number of channels declared in the header.
pub open spec fn wav_channels(w: Seq<u8>) -> int {
    le16(w, 22)
}

/// Sample rate declared in the header.
pub open spec fn wav_rate(w: Seq<u8>) -> int {
    le32(w, 24)
}

/// Bits per sample declared in the header.
pub open spec fn wav_bits(w: Seq<u8>) -> int {
    le16(w, 34)
}

/// The four bytes at `pos` spell `data`.
pub open spec fn is_data_chunk_id(w: Seq<u8>, pos: int) -> bool {
    w[pos] == 0x64 && w[pos + 1] == 0x61 && w[pos + 2] == 0x74 && w[pos + 3] == 0x61
}

/// Walking the chunk list from `pos`: the payload start and declared length
/// of the first `data` chunk, or `None` when the walk runs past the end.
pub open spec fn find_data_chunk(w: Seq<u8>, pos: int) -> Option<(int, int)>
    decreases w.len() - pos,
{
    if pos < 0 || pos + 8 > w.len() {
        None
    } else if is_data_chunk_id(w, pos) {
        Some((pos + 8, le32(w, pos + 4)))
    } else if pos + 8 + le32(w, pos + 4) >= w.len() {
        None
    } else {
        find_data_chunk(w, pos + 8 + le32(w, pos + 4))
    }
}

/// The signed integer value of the sample of width `bits` at byte offset `off`:
/// 8-bit samples are unsigned with a 128 offset, 16/24/32-bit samples are
/// little-endian two's complement; other widths read as 0.
pub open spec fn raw_sample(w: Seq<u8>, off: int, bits: int) -> int {
    if bits == 8 {
        w[off] - 128
    } else if bits == 16 {
        let u = le16(w, off);
        if u >= 0x8000 {
            u - 0x1_0000
        } else {
            u
        }
    } else if bits == 24 {
        let u = w[off] + 256 * w[off + 1] + 65536 * w[off + 2];
        if u >= 0x80_0000 {
            u - 0x100_0000
        } else {
            u
        }
    } else if bits == 32 {
        let u = le32(w, off);
        if u >= 0x8000_0000 {
            u - 0x1_0000_0000
        } else {
            u
        }
    } else {
        0
    }
}

/// The raw samples of all whole frames of the first `data` chunk (clipped to
/// the end of the file), interleaved by channel; empty when the header or the
/// chunk walk is not usable.
pub open spec fn wav_samples(w: Seq<u8>) -> Seq<i32> {
    if !is_riff_wave(w) || wav_channels(w) == 0 || wav_bits(w) == 0 {
        Seq::empty()
    } else {
        match find_data_chunk(w, 12) {
            None => Seq::empty(),
            Some((start, len)) => {
                let end = if start + len < w.len() {
                    start + len
                } else {
                    w.len() as int
                };
                let bps = wav_bits(w) / 8;
                let fb = bps * wav_channels(w);
                if fb == 0 {
                    Seq::empty()
                } else {
                    Seq::new(
                        (((end - start) / fb) * wav_channels(w)) as nat,
                        |j: int| raw_sample(w, start + j * bps, wav_bits(w)) as i32,
                    )
                }
            },
        }
    }
}

/// Raw PCM content of a WAV file.
#[derive(Debug, Clone)]
pub struct WavPcm {
    /// Sample rate in Hz (0 when the file is not a RIFF/WAVE file).
    pub sample_rate: u32,
    /// Channel count (0 when the file is not a RIFF/WAVE file).
    pub num_channels: usize,
    /// Bits per sample (0 when the file is not a RIFF/WAVE file).
    pub bits_per_sample: usize,
    /// Raw integer samples of every whole frame, interleaved by channel.
    pub samples: Vec<i32>,
}

fn read_u16_le(w: &[u8], i: usize) -> (v: u16)
    requires
        i + 2 <= w@.len(),
    ensures
        v == le16(w@, i as int),
{
    w[i] as u16 + 256 * (w[i + 1] as u16)
}

fn read_u32_le(w: &[u8], i: usize) -> (v: u32)
    requires
        i + 4 <= w@.len(),
    ensures
        v == le32(w@, i as int),
{
    w[i] as u32 + 256 * (w[i + 1] as u32) + 65536 * (w[i + 2] as u32) + 16777216 * (
    w[i + 3] as u32)
}

/// Decode the sample of width `bits` at byte offset `off`.
fn read_raw_sample(w: &[u8], off: usize, bits: usize) -> (s: i32)
    requires
        off + bits / 8 <= w@.len(),
    ensures
        s as int == raw_sample(w@, off as int, bits as int),
{
    if bits == 8 {
        w[off] as i32 - 128
    } else if bits == 16 {
        let u = read_u16_le(w, off) as i32;
        if u >= 0x8000 {
            u - 0x1_0000
        } else {
            u
        }
    } else if bits == 24 {
        let u: i32 = w[off] as i32 + 256 * (w[off + 1] as i32) + 65536 * (w[off + 2] as i32);
        if u >= 0x80_0000 {
            u - 0x100_0000
        } else {
            u
        }
    } else if bits == 32 {
        let u = read_u32_le(w, off) as i64;
        let v: i64 = if u >= 0x8000_0000 {
            u - 0x1_0000_0000
        } else {
            u
        };
        v as i32
    } else {
        0
    }
}

/// Walk the chunk list from byte 12 to the first `data` chunk.
fn locate_data_chunk(w: &[u8]) -> (r: Option<(usize, u32)>)
    requires
        w@.len() >= 12,
    ensures
        match r {
            Some((start, len)) => start <= w@.len() && find_data_chunk(w@, 12) == Some(
                (start as int, len as int),
            ),
            None => find_data_chunk(w@, 12) is None,
        },
{
    let mut pos: usize = 12;
    while w.len() - pos >= 8
        invariant
            12 <= pos <= w@.len(),
            find_data_chunk(w@, 12) == find_data_chunk(w@, pos as int),
        decreases w@.len() - pos,
    {
        let chunk_size = read_u32_le(w, pos + 4);
        if w[pos] == 0x64 && w[pos + 1] == 0x61 && w[pos + 2] == 0x74 && w[pos + 3] == 0x61 {
            return Some((pos + 8, chunk_size));
        }
        if chunk_size as usize >= w.len() - pos - 8 {
            return None;
        }
        pos = pos + 8 + chunk_size as usize;
    }
    None
}

/// Decode a WAV byte buffer into its header fields and raw interleaved samples.
///
/// Files shorter than a canonical header or without the `RIFF`/`WAVE` tags
/// give no samples and a sample rate of 0; a zero channel count or sample
/// width, a missing `data` chunk, or samples narrower than a byte give no
/// samples and the declared sample rate.
pub fn decode_wav_pcm(wav: &[u8]) -> (r: WavPcm)
    ensures
        r.sample_rate == (if is_riff_wave(wav@) {
            wav_rate(wav@)
        } else {
            0
        }),
        r.num_channels == (if is_riff_wave(wav@) {
            wav_channels(wav@)
        } else {
            0
        }),
        r.bits_per_sample == (if is_riff_wave(wav@) {
            wav_bits(wav@)
        } else {
            0
        }),
        r.samples@ == wav_samples(wav@),
{
    if wav.len() < 44 {
        return WavPcm { sample_rate: 0, num_channels: 0, bits_per_sample: 0, samples: Vec::new() };
    }
    if !(wav[0] == 0x52 && wav[1] == 0x49 && wav[2] == 0x46 && wav[3] == 0x46 && wav[8] == 0x57
        && wav[9] == 0x41 && wav[10] == 0x56 && wav[11] == 0x45) {
        return WavPcm { sample_rate: 0, num_channels: 0, bits_per_sample: 0, samples: Vec::new() };
    }
    let num_channels = read_u16_le(wav, 22) as usize;
    let sample_rate = read_u32_le(wav, 24);
    let bits_per_sample = read_u16_le(wav, 34) as usize;
    if num_channels == 0 || bits_per_sample == 0 {
        return WavPcm { sample_rate, num_channels, bits_per_sample, samples: Vec::new() };
    }
    let (data_start, data_len) = match locate_data_chunk(wav) {
        Some(found) => found,
        None => {
            return WavPcm { sample_rate, num_channels, bits_per_sample, samples: Vec::new() };
        },
    };
    let data_end: usize = if (data_len as usize) < wav.len() - data_start {
        data_start + data_len as usize
    } else {
        wav.len()
    };
    let bps = bits_per_sample / 8;
    assert(bps * num_channels <= 8191 * 65535) by (nonlinear_arith)
        requires
            bps <= 8191,
            num_channels <= 65535,
    ;
    let frame_bytes = bps * num_channels;
    if frame_bytes == 0 {
        return WavPcm { sample_rate, num_channels, bits_per_sample, samples: Vec::new() };
    }
    assert(bps > 0) by (nonlinear_arith)
        requires
            frame_bytes == bps * num_channels,
            frame_bytes != 0,
    ;
    let n_frames = (data_end - data_start) / frame_bytes;
    let ghost span: int = (data_end - data_start) as int;
    assert(n_frames * num_channels * bps <= span && n_frames * num_channels <= span)
        by (nonlinear_arith)
        requires
            n_frames == span / (bps * num_channels),
            bps * num_channels > 0,
            span >= 0,
            num_channels > 0,
            bps > 0,
    {
        assert(n_frames * (bps * num_channels) <= span);
    }
    let total = n_frames * num_channels;
    let mut samples: Vec<i32> = Vec::new();
    let mut j: usize = 0;
    let mut off: usize = data_start;
    while j < total
        invariant
            0 < bps <= 8191,
            bps == bits_per_sample / 8,
            bits_per_sample == wav_bits(wav@),
            data_start <= data_end <= wav@.len(),
            total * bps <= data_end - data_start,
            j <= total,
            off == data_start + j * bps,
            samples@.len() == j,
            forall|m: int|
                0 <= m < j ==> samples@[m] == raw_sample(
                    wav@,
                    data_start + m * bps,
                    bits_per_sample as int,
                ) as i32,
        decreases total - j,
    {
        assert(j * bps + bps <= total * bps) by (nonlinear_arith)
            requires
                j < total,
                bps > 0,
        ;
        let s = read_raw_sample(wav, off, bits_per_sample);
        samples.push(s);
        assert((j + 1) * bps == j * bps + bps) by (nonlinear_arith);
        off = off + bps;
        j += 1;
    }
    let r = WavPcm { sample_rate, num_channels, bits_per_sample, samples };
    assert(r.samples@ =~= wav_samples(wav@));
    r
}

/// Byte `k` (0 = least significant) of the little-endian encoding of `x`.
pub open spec fn le_byte(x: int, k: int) -> u8 {
    if k == 0 {
        (x % 256) as u8
    } else if k == 1 {
        ((x / 256) % 256) as u8
    } else if k == 2 {
        ((x / 65536) % 256) as u8
    } else {
        ((x / 16777216) % 256) as u8
    }
}

/// The 16-bit two's complement pattern of a sample, as an unsigned value.
pub open spec fn pcm16_pattern(s: i16) -> int {
    if s < 0 {
        s + 0x1_0000
    } else {
        s as int
    }
}

/// Little-endian 16-bit PCM bytes of the samples.
pub open spec fn pcm16_bytes(samples: Seq<i16>) -> Seq<u8> {
    Seq::new(
        2 * samples.len(),
        |k: int|
            if k % 2 == 0 {
                (pcm16_pattern(samples[k / 2]) % 256) as u8
            } else {
                (pcm16_pattern(samples[k / 2]) / 256) as u8
            },
    )
}

/// The 44-byte canonical header of a mono 16-bit PCM file holding `n` samples:
/// `RIFF`, RIFF size, `WAVE`, `fmt ` chunk of 16 bytes (PCM, 1 channel, sample
/// rate, byte rate, block align 2, 16 bits), `data`, data size.  Sizes are
/// reduced modulo 2^32.
pub open spec fn wav_mono16_header(n: int, sample_rate: int) -> Seq<u8> {
    let riff_size = (36 + 2 * n) % 0x1_0000_0000;
    let data_size = (2 * n) % 0x1_0000_0000;
    let byte_rate = 2 * sample_rate;
    seq![
        0x52u8, 0x49, 0x46, 0x46,
        le_byte(riff_size, 0), le_byte(riff_size, 1), le_byte(riff_size, 2), le_byte(riff_size, 3),
        0x57, 0x41, 0x56, 0x45,
        0x66, 0x6d, 0x74, 0x20,
        16, 0, 0, 0,
        1, 0,
        1, 0,
        le_byte(sample_rate, 0), le_byte(sample_rate, 1), le_byte(sample_rate, 2), le_byte(sample_rate, 3),
        le_byte(byte_rate, 0), le_byte(byte_rate, 1), le_byte(byte_rate, 2), le_byte(byte_rate, 3),
        2, 0,
        16, 0,
        0x64, 0x61, 0x74, 0x61,
        le_byte(data_size, 0), le_byte(data_size, 1), le_byte(data_size, 2), le_byte(data_size, 3),
    ]
}

/// A complete mono 16-bit PCM WAV file.
pub open spec fn wav_mono16_bytes(samples: Seq<i16>, sample_rate: int) -> Seq<u8> {
    wav_mono16_header(samples.len() as int, sample_rate) + pcm16_bytes(samples)
}

/// Encode samples as a mono 16-bit PCM WAV file: a 44-byte header (RIFF size
/// and data size reduced modulo 2^32) followed by the little-endian samples.
pub fn encode_wav_mono(samples: &[i16], sample_rate: u32) -> (wav: Vec<u8>)
    requires
        sample_rate <= 0x7fff_ffff,
        2 * samples@.len() + 44 <= usize::MAX,
    ensures
        wav@ == wav_mono16_bytes(samples@, sample_rate as int),
{
    let num_samples = samples.len();
    let data_size = num_samples * 2;
    let file_size = 36 + data_size;
    let rs = ((file_size as u64) % 0x1_0000_0000) as u32;
    let ds = ((data_size as u64) % 0x1_0000_0000) as u32;
    let br = sample_rate * 2;
    let mut buf: Vec<u8> = vec![
        0x52, 0x49, 0x46, 0x46,
        (rs % 256) as u8, ((rs / 256) % 256) as u8, ((rs / 65536) % 256) as u8, ((rs / 16777216) % 256) as u8,
        0x57, 0x41, 0x56, 0x45,
        0x66, 0x6d, 0x74, 0x20,
        16, 0, 0, 0,
        1, 0,
        1, 0,
        (sample_rate % 256) as u8, ((sample_rate / 256) % 256) as u8, ((sample_rate / 65536) % 256) as u8, ((sample_rate / 16777216) % 256) as u8,
        (br % 256) as u8, ((br / 256) % 256) as u8, ((br / 65536) % 256) as u8, ((br / 16777216) % 256) as u8,
        2, 0,
        16, 0,
        0x64, 0x61, 0x74, 0x61,
        (ds % 256) as u8, ((ds / 256) % 256) as u8, ((ds / 65536) % 256) as u8, ((ds / 16777216) % 256) as u8,
    ];
    let ghost header = buf@;
    assert(header =~= wav_mono16_header(num_samples as int, sample_rate as int));
    let mut i: usize = 0;
    while i < num_samples
        invariant
            num_samples == samples@.len(),
            i <= num_samples,
            header == wav_mono16_header(num_samples as int, sample_rate as int),
            buf@ =~= header + pcm16_bytes(samples@.take(i as int)),
        decreases num_samples - i,
    {
        let s = samples[i];
        let u: u32 = if s < 0 {
            (s as i32 + 0x1_0000) as u32
        } else {
            s as u32
        };
        buf.push((u % 256) as u8);
        buf.push((u / 256) as u8);
        proof {
            let prev = pcm16_bytes(samples@.take(i as int));
            let next = pcm16_bytes(samples@.take(i + 1));
            assert(u == pcm16_pattern(samples@[i as int]));
            assert forall|k: int| 0 <= k < next.len() implies next[k] == (prev + seq![
                (u % 256) as u8,
                (u / 256) as u8,
            ])[k] by {
                if k < 2 * i {
                    assert(samples@.take(i + 1)[k / 2] == samples@.take(i as int)[k / 2]);
                }
            }
            assert(next =~= prev + seq![(u % 256) as u8, (u / 256) as u8]);
        }
        i += 1;
    }
    assert(samples@.take(num_samples as int) =~= samples@);
    buf
}

proof fn lemma_u32_le_roundtrip(x: int)
    requires
        0 <= x < 0x1_0000_0000,
    ensures
        le_byte(x, 0) + 256 * le_byte(x, 1) + 65536 * le_byte(x, 2) + 16777216 * le_byte(x, 3) == x,
{
    let y = x as u32;
    assert((y % 256) + 256 * ((y / 256) % 256) + 65536 * ((y / 65536) % 256) + 16777216 * ((y
        / 16777216) % 256) == y) by (bit_vector);
}

proof fn lemma_u16_le_roundtrip(x: int)
    requires
        0 <= x < 0x1_0000,
    ensures
        le_byte(x, 0) + 256 * le_byte(x, 1) == x,
{
    let y = x as u16;
    assert((y % 256) + 256 * ((y / 256) % 256) == y) by (bit_vector);
}

/// The canonical header is the first 44 bytes of an encoded file.
#[verifier::spinoff_prover]
proof fn lemma_header_prefix(samples: Seq<i16>, sample_rate: int)
    ensures
        wav_mono16_bytes(samples, sample_rate).len() == 44 + 2 * samples.len(),
        forall|k: int|
            0 <= k < 44 ==> #[trigger] wav_mono16_bytes(samples, sample_rate)[k]
                == wav_mono16_header(samples.len() as int, sample_rate)[k],
{
    let h = wav_mono16_header(samples.len() as int, sample_rate);
    assert(h.len() == 44);
}

/// The field values that the canonical header holds.
#[verifier::spinoff_prover]
proof fn lemma_header_values(n: int, sample_rate: int)
    requires
        0 <= sample_rate <= 0x7fff_ffff,
        0 <= 2 * n,
        2 * n + 36 < 0x1_0000_0000,
    ensures
        ({
            let h = wav_mono16_header(n, sample_rate);
            &&& h[0] == 0x52 && h[1] == 0x49 && h[2] == 0x46 && h[3] == 0x46
            &&& h[8] == 0x57 && h[9] == 0x41 && h[10] == 0x56 && h[11] == 0x45
            &&& h[12] == 0x66
            &&& h[16] + 256 * h[17] + 65536 * h[18] + 16777216 * h[19] == 16
            &&& h[22] + 256 * h[23] == 1
            &&& h[24] + 256 * h[25] + 65536 * h[26] + 16777216 * h[27] == sample_rate
            &&& h[34] + 256 * h[35] == 16
            &&& h[36] == 0x64 && h[37] == 0x61 && h[38] == 0x74 && h[39] == 0x61
            &&& h[40] + 256 * h[41] + 65536 * h[42] + 16777216 * h[43] == 2 * n
        }),
{
    lemma_u32_le_roundtrip(sample_rate);
    assert((2 * n) % 0x1_0000_0000 == 2 * n);
    lemma_u32_le_roundtrip(2 * n);
}

/// The header fields that decoding reads back from a canonical mono 16-bit header.
#[verifier::spinoff_prover]
proof fn lemma_header_fields(samples: Seq<i16>, sample_rate: int)
    requires
        0 <= sample_rate <= 0x7fff_ffff,
        2 * samples.len() + 36 < 0x1_0000_0000,
    ensures
        ({
            let w = wav_mono16_bytes(samples, sample_rate);
            &&& w.len() == 44 + 2 * samples.len()
            &&& is_riff_wave(w)
            &&& wav_rate(w) == sample_rate
            &&& wav_channels(w) == 1
            &&& wav_bits(w) == 16
            &&& find_data_chunk(w, 12) == Some((44int, 2 * samples.len() as int))
        }),
{
    let n = samples.len() as int;
    let w = wav_mono16_bytes(samples, sample_rate);
    let h = wav_mono16_header(n, sample_rate);
    lemma_header_prefix(samples, sample_rate);
    lemma_header_values(n, sample_rate);
    assert(w[0] == h[0] && w[1] == h[1] && w[2] == h[2] && w[3] == h[3]);
    assert(w[8] == h[8] && w[9] == h[9] && w[10] == h[10] && w[11] == h[11]);
    assert(w[12] == h[12]);
    assert(w[16] == h[16] && w[17] == h[17] && w[18] == h[18] && w[19] == h[19]);
    assert(w[22] == h[22] && w[23] == h[23]);
    assert(w[24] == h[24] && w[25] == h[25] && w[26] == h[26] && w[27] == h[27]);
    assert(w[34] == h[34] && w[35] == h[35]);
    assert(w[36] == h[36] && w[37] == h[37] && w[38] == h[38] && w[39] == h[39]);
    assert(w[40] == h[40] && w[41] == h[41] && w[42] == h[42] && w[43] == h[43]);
    assert(is_riff_wave(w));
    assert(le32(w, 16) == 16);
    assert(!is_data_chunk_id(w, 12));
    assert(is_data_chunk_id(w, 36));
    assert(le32(w, 40) == 2 * n);
    assert(find_data_chunk(w, 36) == Some((44int, 2 * n)));
}

/// The sample at byte `44 + 2 j` of an encoded file decodes to sample `j`.
#[verifier::spinoff_prover]
proof fn lemma_pcm16_sample(samples: Seq<i16>, sample_rate: int, j: int)
    requires
        0 <= j < samples.len(),
    ensures
        raw_sample(wav_mono16_bytes(samples, sample_rate), 44 + 2 * j, 16) == samples[j] as int,
{
    let w = wav_mono16_bytes(samples, sample_rate);
    let h = wav_mono16_header(samples.len() as int, sample_rate);
    let p = pcm16_bytes(samples);
    let u = pcm16_pattern(samples[j]);
    assert(h.len() == 44);
    assert(w[44 + 2 * j] == p[2 * j]);
    assert(w[44 + 2 * j + 1] == p[2 * j + 1]);
    assert((2 * j) / 2 == j && (2 * j) % 2 == 0);
    assert((2 * j + 1) / 2 == j && (2 * j + 1) % 2 == 1);
    lemma_u16_le_roundtrip(u);
    assert(le16(w, 44 + 2 * j) == u);
}

/// Decoding what `encode_wav_mono` wrote gives back the samples, the sample
/// rate, one channel and 16 bits per sample, whenever the sizes fit the
/// 32-bit header fields; the file is 44 header bytes plus two per sample.
#[verifier::spinoff_prover]
pub proof fn lemma_wav_mono16_roundtrip(samples: Seq<i16>, sample_rate: int)
    requires
        0 <= sample_rate <= 0x7fff_ffff,
        2 * samples.len() + 36 < 0x1_0000_0000,
    ensures
        wav_mono16_bytes(samples, sample_rate).len() == 44 + 2 * samples.len(),
        is_riff_wave(wav_mono16_bytes(samples, sample_rate)),
        wav_rate(wav_mono16_bytes(samples, sample_rate)) == sample_rate,
        wav_channels(wav_mono16_bytes(samples, sample_rate)) == 1,
        wav_bits(wav_mono16_bytes(samples, sample_rate)) == 16,
        wav_samples(wav_mono16_bytes(samples, sample_rate)) == samples.map_values(
            |s: i16| s as i32,
        ),
{
    let n = samples.len() as int;
    let w = wav_mono16_bytes(samples, sample_rate);
    lemma_header_fields(samples, sample_rate);
    let decoded = wav_samples(w);
    let expected = samples.map_values(|s: i16| s as i32);
    assert(decoded.len() == n);
    assert forall|j: int| 0 <= j < n implies decoded[j] == expected[j] by {
        assert(decoded[j] == raw_sample(w, 44 + j * 2, 16) as i32);
        assert(44 + j * 2 == 44 + 2 * j);
        lemma_pcm16_sample(samples, sample_rate, j);
    }
    assert(decoded =~= expected);
}
/// The remaining fields of the canonical header: the RIFF size, the `fmt `
/// chunk's format, byte rate and block alignment.
#[verifier::spinoff_prover]
proof fn lemma_header_size_fields(n: int, sample_rate: int)
    requires
        0 <= sample_rate <= 0x7fff_ffff,
        0 <= 2 * n,
        2 * n + 36 < 0x1_0000_0000,
    ensures
        ({
            let h = wav_mono16_header(n, sample_rate);
            &&& h[4] + 256 * h[5] + 65536 * h[6] + 16777216 * h[7] == 36 + 2 * n
            &&& h[13] == 0x6d && h[14] == 0x74 && h[15] == 0x20
            &&& h[20] + 256 * h[21] == 1
            &&& h[28] + 256 * h[29] + 65536 * h[30] + 16777216 * h[31] == 2 * sample_rate
            &&& h[32] + 256 * h[33] == 2
        }),
{
    assert((36 + 2 * n) % 0x1_0000_0000 == 36 + 2 * n);
    lemma_u32_le_roundtrip(36 + 2 * n);
    lemma_u32_le_roundtrip(2 * sample_rate);
}

/// Every field of the header that `encode_wav_mono` writes, read as
/// little-endian bytes: `RIFF`, a RIFF size equal to the file length less
/// the 8 bytes of tag and size, `WAVE`, a 16-byte `fmt ` chunk declaring PCM
/// (format 1), one channel, the sample rate, a byte rate of twice the sample
/// rate, 2-byte frames and 16 bits per sample, then `data` with a size of two
/// bytes per sample, whenever the sizes fit the 32-bit fields.
#[verifier::spinoff_prover]
pub proof fn lemma_wav_mono16_header(samples: Seq<i16>, sample_rate: int)
    requires
        0 <= sample_rate <= 0x7fff_ffff,
        2 * samples.len() + 36 < 0x1_0000_0000,
    ensures
        ({
            let w = wav_mono16_bytes(samples, sample_rate);
            let n = samples.len() as int;
            &&& w.len() == 44 + 2 * n
            &&& w[0] == 0x52 && w[1] == 0x49 && w[2] == 0x46 && w[3] == 0x46
            &&& w[4] + 256 * w[5] + 65536 * w[6] + 16777216 * w[7] == w.len() - 8
            &&& w[8] == 0x57 && w[9] == 0x41 && w[10] == 0x56 && w[11] == 0x45
            &&& w[12] == 0x66 && w[13] == 0x6d && w[14] == 0x74 && w[15] == 0x20
            &&& w[16] + 256 * w[17] + 65536 * w[18] + 16777216 * w[19] == 16
            &&& w[20] + 256 * w[21] == 1
            &&& w[22] + 256 * w[23] == 1
            &&& w[24] + 256 * w[25] + 65536 * w[26] + 16777216 * w[27] == sample_rate
            &&& w[28] + 256 * w[29] + 65536 * w[30] + 16777216 * w[31] == 2 * sample_rate
            &&& w[32] + 256 * w[33] == 2
            &&& w[34] + 256 * w[35] == 16
            &&& w[36] == 0x64 && w[37] == 0x61 && w[38] == 0x74 && w[39] == 0x61
            &&& w[40] + 256 * w[41] + 65536 * w[42] + 16777216 * w[43] == 2 * n
        }),
{
    let n = samples.len() as int;
    let w = wav_mono16_bytes(samples, sample_rate);
    let h = wav_mono16_header(n, sample_rate);
    lemma_header_prefix(samples, sample_rate);
    lemma_header_values(n, sample_rate);
    lemma_header_size_fields(n, sample_rate);
    assert forall|k: int| 0 <= k < 44 implies w[k] == h[k] by {}
    assert(w[4] == h[4] && w[5] == h[5] && w[6] == h[6] && w[7] == h[7]);
    assert(w[13] == h[13] && w[14] == h[14] && w[15] == h[15]);
    assert(w[20] == h[20] && w[21] == h[21]);
    assert(w[28] == h[28] && w[29] == h[29] && w[30] == h[30] && w[31] == h[31]);
    assert(w[32] == h[32] && w[33] == h[33]);
    lemma_header_fields(samples, sample_rate);
    assert(w[16] == h[16] && w[17] == h[17] && w[18] == h[18] && w[19] == h[19]);
    assert(w[40] == h[40] && w[41] == h[41] && w[42] == h[42] && w[43] == h[43]);
    assert(w[22] == h[22] && w[23] == h[23] && w[34] == h[34] && w[35] == h[35]);
    assert(w[24] == h[24] && w[25] == h[25] && w[26] == h[26] && w[27] == h[27]);
}

/// Each sample width reads the value its bytes encode: 8-bit samples are
/// unsigned with an offset of 128; 16-, 24- and 32-bit samples are the
/// little-endian two's complement value, i.e. the one value in the signed
/// range of that width that agrees with the unsigned little-endian value
/// modulo 2^width (negative exactly when the top byte is 0x80 or more).
pub proof fn lemma_raw_sample_value(w: Seq<u8>, off: int, bits: int)
    requires
        0 <= off,
        bits == 8 || bits == 16 || bits == 24 || bits == 32,
        off + bits / 8 <= w.len(),
    ensures
        bits == 8 ==> -128 <= raw_sample(w, off, bits) < 128 && raw_sample(w, off, bits) + 128
            == w[off],
        bits == 16 ==> {
            &&& -0x8000 <= raw_sample(w, off, bits) < 0x8000
            &&& (raw_sample(w, off, bits) - (w[off] + 256 * w[off + 1])) % 0x1_0000 == 0
            &&& (raw_sample(w, off, bits) < 0 <==> w[off + 1] >= 0x80)
        },
        bits == 24 ==> {
            &&& -0x80_0000 <= raw_sample(w, off, bits) < 0x80_0000
            &&& (raw_sample(w, off, bits) - (w[off] + 256 * w[off + 1] + 65536 * w[off + 2]))
                % 0x100_0000 == 0
            &&& (raw_sample(w, off, bits) < 0 <==> w[off + 2] >= 0x80)
        },
        bits == 32 ==> {
            &&& -0x8000_0000 <= raw_sample(w, off, bits) < 0x8000_0000
            &&& (raw_sample(w, off, bits) - (w[off] + 256 * w[off + 1] + 65536 * w[off + 2]
                + 16777216 * w[off + 3])) % 0x1_0000_0000 == 0
            &&& (raw_sample(w, off, bits) < 0 <==> w[off + 3] >= 0x80)
        },
{
}

/// The chunk walk reads each chunk's 4-byte tag and little-endian 32-bit
/// size: a `data` tag gives its payload (8 bytes after the tag) and size;
/// any other chunk is skipped, tag, size field and payload together, unless
/// that runs to or past the end of the file, where the walk stops.
pub proof fn lemma_chunk_walk(w: Seq<u8>, pos: int)
    requires
        0 <= pos,
    ensures
        pos + 8 > w.len() ==> find_data_chunk(w, pos) is None,
        pos + 8 <= w.len() ==> ({
            let size = w[pos + 4] + 256 * w[pos + 5] + 65536 * w[pos + 6] + 16777216 * w[pos + 7];
            let tagged_data = w[pos] == 0x64 && w[pos + 1] == 0x61 && w[pos + 2] == 0x74 && w[pos
                + 3] == 0x61;
            &&& tagged_data ==> find_data_chunk(w, pos) == Some((pos + 8, size))
            &&& !tagged_data && pos + 8 + size < w.len() ==> find_data_chunk(w, pos)
                == find_data_chunk(w, pos + 8 + size)
            &&& !tagged_data && pos + 8 + size >= w.len() ==> find_data_chunk(w, pos) is None
        }),
{
}

} // verus!
