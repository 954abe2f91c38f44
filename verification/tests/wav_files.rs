//! WAV files, read back with the crate that wrote them and byte by byte.
use demucs::wav::{can_describe, can_hold, encode_wav, interleave, le_words};

fn bits(samples: &[f32]) -> Vec<u32> {
    samples.iter().map(|s| s.to_bits()).collect()
}

#[test]
fn stereo_file_byte_by_byte() {
    let samples = bits(&[1.0, -0.5]);
    let file = encode_wav(&samples, 44100, 2).unwrap();
    let mut expected: Vec<u8> = Vec::new();
    expected.extend_from_slice(b"RIFF");
    expected.extend_from_slice(&(68u32 + 8 - 8).to_le_bytes());
    expected.extend_from_slice(b"WAVEfmt ");
    expected.extend_from_slice(&40u32.to_le_bytes());
    expected.extend_from_slice(&0xfffeu16.to_le_bytes());
    expected.extend_from_slice(&2u16.to_le_bytes());
    expected.extend_from_slice(&44100u32.to_le_bytes());
    expected.extend_from_slice(&352800u32.to_le_bytes());
    expected.extend_from_slice(&8u16.to_le_bytes());
    expected.extend_from_slice(&32u16.to_le_bytes());
    expected.extend_from_slice(&22u16.to_le_bytes());
    expected.extend_from_slice(&32u16.to_le_bytes());
    expected.extend_from_slice(&3u32.to_le_bytes());
    expected.extend_from_slice(&[3, 0, 0, 0, 0, 0, 16, 0, 128, 0, 0, 170, 0, 56, 155, 113]);
    expected.extend_from_slice(b"data");
    expected.extend_from_slice(&8u32.to_le_bytes());
    assert_eq!(expected.len(), 68);
    expected.extend_from_slice(&1.0f32.to_le_bytes());
    expected.extend_from_slice(&(-0.5f32).to_le_bytes());
    assert_eq!(file, expected);
}

#[test]
fn headers_of_other_numbers_of_channels() {
    for (channels, speakers) in [(1u16, 1u32), (6, 63), (18, 0x3ffff), (20, 0x3ffff)] {
        let file = encode_wav(&[], 1000, channels).unwrap();
        assert_eq!(file[22..24], channels.to_le_bytes());
        assert_eq!(file[28..32], (4000 * channels as u32).to_le_bytes());
        assert_eq!(file[32..34], (4 * channels).to_le_bytes());
        assert_eq!(file[40..44], speakers.to_le_bytes());
        assert_eq!(file[4..8], 60u32.to_le_bytes());
        assert_eq!(file[64..68], 0u32.to_le_bytes());
    }
    // The size of a block is cut down to sixteen bits.
    let file = encode_wav(&[], 1, 20_000).unwrap();
    assert_eq!(file[32..34], (80_000u32 as u16).to_le_bytes());
}

#[test]
fn a_file_reads_back() {
    let samples = [0.0f32, 1.0, -1.0, 0.25, f32::MAX, f32::MIN_POSITIVE];
    for (channels, rate) in [(1u16, 8000u32), (2, 44100), (3, 96000)] {
        let file = encode_wav(&bits(&samples), rate, channels).unwrap();
        assert_eq!(file.len(), 68 + 4 * samples.len());
        let reader = hound::WavReader::new(std::io::Cursor::new(file)).unwrap();
        let spec = reader.spec();
        assert_eq!(spec.channels, channels);
        assert_eq!(spec.sample_rate, rate);
        assert_eq!(spec.bits_per_sample, 32);
        assert_eq!(spec.sample_format, hound::SampleFormat::Float);
        let read: Vec<f32> = reader.into_samples::<f32>().map(|s| s.unwrap()).collect();
        assert_eq!(read, samples);
    }
}

#[test]
fn bits_that_are_no_number_are_kept() {
    let odd = [0x7fc0_1234u32, 0xffff_ffff, 0x8000_0000, 0x0000_0001];
    let file = encode_wav(&odd, 48000, 2).unwrap();
    assert_eq!(le_words(&file[68..]), odd);
}

#[test]
fn an_empty_file_has_a_header() {
    let file = encode_wav(&[], 44100, 2).unwrap();
    assert_eq!(file.len(), 68);
}

#[test]
fn samples_must_fill_the_channels() {
    let e = encode_wav(&[1, 2, 3], 44100, 2).unwrap_err();
    assert_eq!(
        e,
        "WAV finalize: The number of samples written is not a multiple of the number of channels."
    );
    assert!(encode_wav(&[1, 2, 3], 44100, 3).is_ok());
}

#[test]
fn the_file_is_what_hound_writes_of_numbers() {
    let samples = [0.5f32, -0.125, 3.0, 1e-20];
    let mut buf = Vec::new();
    let spec = hound::WavSpec {
        channels: 2,
        sample_rate: 22050,
        bits_per_sample: 32,
        sample_format: hound::SampleFormat::Float,
    };
    let mut writer = hound::WavWriter::new(std::io::Cursor::new(&mut buf), spec).unwrap();
    for s in samples {
        writer.write_sample(s).unwrap();
    }
    writer.finalize().unwrap();
    assert_eq!(encode_wav(&bits(&samples), 22050, 2).unwrap(), buf);
}

#[test]
fn channels_take_turns() {
    assert_eq!(interleave(&[1, 3, 5], &[2, 4, 6]), [1, 2, 3, 4, 5, 6]);
    assert_eq!(interleave(&[1, 3, 5], &[2]), [1, 2]);
    assert!(interleave(&[], &[2, 4]).is_empty());
}

#[test]
fn a_stereo_file_holds_both_channels() {
    let left = [10, 20, 30];
    let right = [11, 21, 31];
    let file = encode_wav(&interleave(&left, &right), 44100, 2).unwrap();
    for j in 0..3 {
        let at = 68 + 8 * j;
        assert_eq!(le_words(&file[at..at + 8]), [left[j], right[j]]);
    }
}

#[test]
fn words_are_read_lowest_byte_first() {
    assert_eq!(le_words(&[1, 0, 0, 0, 0x78, 0x56, 0x34, 0x12, 9, 9]), [1, 0x1234_5678]);
    assert_eq!(le_words(&[255; 4]), [u32::MAX]);
    assert!(le_words(&[1, 2, 3]).is_empty());
}

#[test]
fn limits_of_the_format() {
    assert!(can_describe(2, 44100));
    assert!(!can_describe(0, 44100));
    assert!(!can_describe(2, 0));
    assert!(can_describe(2, 536_870_911));
    assert!(!can_describe(2, 536_870_912));
    assert!(can_hold(0));
    assert!(can_hold(1_073_741_808));
    assert!(!can_hold(1_073_741_809));
}
