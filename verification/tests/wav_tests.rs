use guitar_pitch_detection::wav::{decode_wav_pcm, encode_wav_mono};
use std::f32::consts::TAU;

const SR: u32 = 44_100;
const SR_F: f32 = SR as f32;

/// Maximum absolute error introduced by rounding f32 → i16 → f32.
const I16_QUANTIZATION_TOLERANCE: f32 = 2.0 / 32_768.0;

fn to_pcm(samples: &[f32]) -> Vec<i16> {
    samples
        .iter()
        .map(|&x| (x.clamp(-1.0, 1.0) * 32_767.0) as i16)
        .collect()
}

fn to_f32(pcm: &[i32]) -> Vec<f32> {
    pcm.iter().map(|&s| s as f32 / 32_768.0).collect()
}

#[test]
fn wav_encode_decode_roundtrip() {
    let signal: Vec<f32> = (0..1024)
        .map(|i| (TAU * 440.0 * i as f32 / SR_F).sin())
        .collect();

    let wav_bytes = encode_wav_mono(&to_pcm(&signal), SR);
    let decoded = to_f32(&decode_wav_pcm(&wav_bytes).samples);

    assert_eq!(decoded.len(), signal.len());
    for (i, (&orig, &dec)) in signal.iter().zip(decoded.iter()).enumerate() {
        let err = (orig - dec).abs();
        assert!(
            err < I16_QUANTIZATION_TOLERANCE,
            "sample {i}: input={orig:.6}, decoded={dec:.6}, err={err:.6e}"
        );
    }
}

#[test]
fn encoded_header_layout() {
    let wav = encode_wav_mono(&[1, -1, 0x1234], 48_000);
    assert_eq!(wav.len(), 44 + 6);
    assert_eq!(&wav[0..4], b"RIFF");
    assert_eq!(&wav[4..8], &(36u32 + 6).to_le_bytes());
    assert_eq!(&wav[8..12], b"WAVE");
    assert_eq!(&wav[12..16], b"fmt ");
    assert_eq!(&wav[16..20], &16u32.to_le_bytes());
    assert_eq!(&wav[20..22], &1u16.to_le_bytes());
    assert_eq!(&wav[22..24], &1u16.to_le_bytes());
    assert_eq!(&wav[24..28], &48_000u32.to_le_bytes());
    assert_eq!(&wav[28..32], &96_000u32.to_le_bytes());
    assert_eq!(&wav[32..34], &2u16.to_le_bytes());
    assert_eq!(&wav[34..36], &16u16.to_le_bytes());
    assert_eq!(&wav[36..40], b"data");
    assert_eq!(&wav[40..44], &6u32.to_le_bytes());
    assert_eq!(&wav[44..], &[0x01, 0x00, 0xff, 0xff, 0x34, 0x12]);
}

#[test]
fn exact_roundtrip_of_extreme_samples() {
    let pcm: Vec<i16> = vec![i16::MIN, -1, 0, 1, i16::MAX, -12345, 23456];
    let wav = encode_wav_mono(&pcm, 22_050);
    let d = decode_wav_pcm(&wav);
    assert_eq!(d.sample_rate, 22_050);
    assert_eq!(d.num_channels, 1);
    assert_eq!(d.bits_per_sample, 16);
    let back: Vec<i32> = pcm.iter().map(|&s| s as i32).collect();
    assert_eq!(d.samples, back);
}

#[test]
fn empty_sample_list_roundtrips() {
    let wav = encode_wav_mono(&[], 8_000);
    assert_eq!(wav.len(), 44);
    let d = decode_wav_pcm(&wav);
    assert_eq!(d.sample_rate, 8_000);
    assert!(d.samples.is_empty());
}

fn header(channels: u16, rate: u32, bits: u16, chunks: &[(&[u8; 4], Vec<u8>)]) -> Vec<u8> {
    let mut out = Vec::new();
    out.extend_from_slice(b"RIFF");
    out.extend_from_slice(&0u32.to_le_bytes());
    out.extend_from_slice(b"WAVE");
    out.extend_from_slice(b"fmt ");
    out.extend_from_slice(&16u32.to_le_bytes());
    out.extend_from_slice(&1u16.to_le_bytes());
    out.extend_from_slice(&channels.to_le_bytes());
    out.extend_from_slice(&rate.to_le_bytes());
    out.extend_from_slice(&0u32.to_le_bytes());
    out.extend_from_slice(&0u16.to_le_bytes());
    out.extend_from_slice(&bits.to_le_bytes());
    for (id, payload) in chunks {
        out.extend_from_slice(&id[..]);
        out.extend_from_slice(&(payload.len() as u32).to_le_bytes());
        out.extend_from_slice(payload);
    }
    out
}

#[test]
fn short_file_gives_nothing() {
    let d = decode_wav_pcm(&[0u8; 43]);
    assert_eq!(d.sample_rate, 0);
    assert!(d.samples.is_empty());
}

#[test]
fn wrong_magic_gives_nothing() {
    let mut wav = encode_wav_mono(&[5, 6], 44_100);
    wav[0] = b'X';
    let d = decode_wav_pcm(&wav);
    assert_eq!(d.sample_rate, 0);
    assert!(d.samples.is_empty());
    let mut wav = encode_wav_mono(&[5, 6], 44_100);
    wav[10] = b'X';
    assert!(decode_wav_pcm(&wav).samples.is_empty());
}

#[test]
fn zero_channels_keeps_rate_but_no_samples() {
    let wav = header(0, 32_000, 16, &[(b"data", vec![1, 2, 3, 4])]);
    let d = decode_wav_pcm(&wav);
    assert_eq!(d.sample_rate, 32_000);
    assert!(d.samples.is_empty());
}

#[test]
fn missing_data_chunk_keeps_rate_but_no_samples() {
    let wav = header(1, 16_000, 16, &[(b"LIST", vec![0; 10])]);
    let d = decode_wav_pcm(&wav);
    assert_eq!(d.sample_rate, 16_000);
    assert!(d.samples.is_empty());
}

#[test]
fn sub_byte_width_gives_no_samples() {
    let wav = header(1, 16_000, 4, &[(b"data", vec![1, 2, 3, 4])]);
    let d = decode_wav_pcm(&wav);
    assert_eq!(d.bits_per_sample, 4);
    assert!(d.samples.is_empty());
}

#[test]
fn chunks_before_data_are_skipped() {
    let wav = header(1, 8_000, 16, &[(b"LIST", vec![9; 6]), (b"data", vec![0x10, 0x00, 0xf0, 0xff])]);
    let d = decode_wav_pcm(&wav);
    assert_eq!(d.samples, vec![16, -16]);
}

#[test]
fn eight_bit_samples_are_offset_by_128() {
    let wav = header(1, 8_000, 8, &[(b"data", vec![0, 128, 255])]);
    assert_eq!(decode_wav_pcm(&wav).samples, vec![-128, 0, 127]);
}

#[test]
fn twenty_four_bit_samples_are_sign_extended() {
    let wav = header(1, 8_000, 24, &[(b"data", vec![0xff, 0xff, 0xff, 0x01, 0x00, 0x80])]);
    assert_eq!(decode_wav_pcm(&wav).samples, vec![-1, -8_388_607]);
}

#[test]
fn thirty_two_bit_samples() {
    let wav = header(1, 8_000, 32, &[(b"data", vec![0x00, 0x00, 0x00, 0x80, 0x07, 0x00, 0x00, 0x00])]);
    assert_eq!(decode_wav_pcm(&wav).samples, vec![i32::MIN, 7]);
}

#[test]
fn unsupported_width_reads_zero() {
    let wav = header(1, 8_000, 12, &[(b"data", vec![0x55, 0x66])]);
    assert_eq!(decode_wav_pcm(&wav).samples, vec![0, 0]);
}

#[test]
fn stereo_keeps_whole_frames_interleaved() {
    // Two whole 16-bit stereo frames plus a dangling half frame.
    let payload = vec![1, 0, 2, 0, 3, 0, 4, 0, 5, 0];
    let wav = header(2, 8_000, 16, &[(b"data", payload)]);
    let d = decode_wav_pcm(&wav);
    assert_eq!(d.num_channels, 2);
    assert_eq!(d.samples, vec![1, 2, 3, 4]);
}

#[test]
fn data_chunk_clipped_to_file_end() {
    let mut wav = header(1, 8_000, 16, &[(b"data", vec![7, 0, 8, 0])]);
    // Declare a longer payload than the file holds.
    wav[40..44].copy_from_slice(&100u32.to_le_bytes());
    assert_eq!(decode_wav_pcm(&wav).samples, vec![7, 8]);
}
