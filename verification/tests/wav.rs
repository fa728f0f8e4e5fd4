use soksak_sidecar_speech_sherpa::wav::{pcm_s16le, wav_encode};

#[test]
fn pcm_is_little_endian_signed() {
    let samples: Vec<i16> = vec![0, 1, -1, 32767, -32768, 256, -257];
    let mut expected = Vec::new();
    for s in &samples {
        expected.extend_from_slice(&s.to_le_bytes());
    }
    assert_eq!(pcm_s16le(&samples), expected);
}

#[test]
fn pcm_of_nothing_is_empty() {
    assert_eq!(pcm_s16le(&[]), Vec::<u8>::new());
}

#[test]
fn wav_header_is_exact() {
    let samples: Vec<i16> = vec![1, -2, 3];
    let w = wav_encode(&samples, 22050);
    let mut expected: Vec<u8> = Vec::new();
    expected.extend_from_slice(b"RIFF");
    expected.extend_from_slice(&(36u32 + 6).to_le_bytes());
    expected.extend_from_slice(b"WAVEfmt ");
    expected.extend_from_slice(&16u32.to_le_bytes());
    expected.extend_from_slice(&1u16.to_le_bytes());
    expected.extend_from_slice(&1u16.to_le_bytes());
    expected.extend_from_slice(&22050u32.to_le_bytes());
    expected.extend_from_slice(&44100u32.to_le_bytes());
    expected.extend_from_slice(&2u16.to_le_bytes());
    expected.extend_from_slice(&16u16.to_le_bytes());
    expected.extend_from_slice(b"data");
    expected.extend_from_slice(&6u32.to_le_bytes());
    expected.extend_from_slice(&[1, 0, 0xfe, 0xff, 3, 0]);
    assert_eq!(w, expected);
}

#[test]
fn wav_reads_back() {
    let samples: Vec<i16> = (0..100).map(|i| (i * 331 - 16000) as i16).collect();
    let w = wav_encode(&samples, 24000);
    assert_eq!(w.len(), 44 + 200);
    assert_eq!(u32::from_le_bytes([w[4], w[5], w[6], w[7]]), 236);
    assert_eq!(u32::from_le_bytes([w[24], w[25], w[26], w[27]]), 24000);
    assert_eq!(u32::from_le_bytes([w[28], w[29], w[30], w[31]]), 48000);
    assert_eq!(u32::from_le_bytes([w[40], w[41], w[42], w[43]]), 200);
    for (i, s) in samples.iter().enumerate() {
        assert_eq!(i16::from_le_bytes([w[44 + 2 * i], w[45 + 2 * i]]), *s);
    }
}

#[test]
fn empty_wav_is_a_bare_header() {
    let w = wav_encode(&[], 16000);
    assert_eq!(w.len(), 44);
    assert_eq!(&w[0..4], b"RIFF");
    assert_eq!(u32::from_le_bytes([w[4], w[5], w[6], w[7]]), 36);
    assert_eq!(&w[36..40], b"data");
    assert_eq!(u32::from_le_bytes([w[40], w[41], w[42], w[43]]), 0);
}

#[test]
fn pcm_of_a_concatenation() {
    let a: Vec<i16> = vec![5, -6, 7];
    let b: Vec<i16> = vec![-32768, 32767];
    let ab: Vec<i16> = [a.clone(), b.clone()].concat();
    assert_eq!(pcm_s16le(&ab), [pcm_s16le(&a), pcm_s16le(&b)].concat());
}
