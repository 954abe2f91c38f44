//! Padding, framing, the spectrogram and chunking.
use demucs::chunks::{build_chunks, AudioChunk};
use demucs::reflect::{reflect_index, reflect_pad};
use demucs::spectrogram::{compute_magnitude_spectrogram, MagnitudeSpectrogram};
use demucs::stft::{
    stft_frames, Complex, DEMUCS_SAMPLE_RATE, HOP_LENGTH, NFFT, OVERLAP, TRAINING_LENGTH,
};
use rustfft::FftPlanner;

fn forward(frame: Vec<Complex<f32>>) -> Vec<Complex<f32>> {
    let mut buf: Vec<rustfft::num_complex::Complex<f32>> = frame
        .iter()
        .map(|c| rustfft::num_complex::Complex::new(c.re, c.im))
        .collect();
    FftPlanner::new().plan_fft_forward(buf.len()).process(&mut buf);
    buf.iter().map(|c| Complex { re: c.re, im: c.im }).collect()
}

fn unchanged(frame: Vec<Complex<i64>>) -> Vec<Complex<i64>> {
    frame
}

#[test]
fn constants() {
    assert_eq!(DEMUCS_SAMPLE_RATE, 44100);
    assert_eq!(TRAINING_LENGTH, 343980);
    assert_eq!(NFFT, 4096);
    assert_eq!(HOP_LENGTH, 1024);
    assert_eq!(OVERLAP, 44100);
}

#[test]
fn reflection_folds_positions_back() {
    let expected = [2, 1, 0, 1, 2, 3, 2, 1, 0, 1];
    for (k, &e) in expected.iter().enumerate() {
        assert_eq!(reflect_index(k as isize - 2, 4), e);
    }
    assert_eq!(reflect_index(600, 4), 0);
    assert_eq!(reflect_index(-601, 4), 1);
    assert_eq!(reflect_index(0, 1), 0);
    assert_eq!(reflect_index(7, 2), 1);
}

#[test]
fn reflection_is_symmetric() {
    for n in 2..9usize {
        for idx in -40..40isize {
            assert_eq!(reflect_index(idx, n), reflect_index(-idx, n));
            let last = n as isize - 1;
            assert_eq!(reflect_index(idx, n), reflect_index(2 * last - idx, n));
        }
        for idx in 0..n {
            assert_eq!(reflect_index(idx as isize, n), idx);
        }
    }
}

#[test]
fn padding_mirrors_both_ends() {
    assert_eq!(reflect_pad(&[1, 2, 3], 2, 2), [3, 2, 1, 2, 3, 2, 1]);
    assert_eq!(reflect_pad(&[1, 2], 3, 4), [2, 1, 2, 1, 2, 1, 2, 1, 2]);
    assert_eq!(reflect_pad(&[1, 2, 3], 0, 0), [1, 2, 3]);
    assert_eq!(reflect_pad(&[7], 0, 0), [7]);
    let empty: [u8; 0] = [];
    assert_eq!(reflect_pad(&empty, 0, 0), empty);
}

#[test]
fn padding_keeps_the_signal() {
    let signal: Vec<u32> = (10..20).collect();
    let padded = reflect_pad(&signal, 25, 13);
    assert_eq!(padded.len(), 48);
    assert_eq!(padded[25..35], signal[..]);
}

#[test]
fn frames_are_cut_and_weighed() {
    let window = [1, 2, 3, 4];
    let grid = stft_frames(&[1, 10, 100, 1000, 5, 6, 7], 4, 2, &window, 2, 0, &unchanged);
    // Two frames; three bins, each with its two values together.
    let re: Vec<i64> = grid.iter().map(|c| c.re).collect();
    assert_eq!(re, [2, 200, 40, 4000, 600, 30]);
    assert!(grid.iter().all(|c| c.im == 0));
}

#[test]
fn a_short_signal_has_one_frame() {
    let window = [1; 8];
    let grid = stft_frames(&[3, 4, 5], 8, 2, &window, 1, 0, &unchanged);
    let re: Vec<i64> = grid.iter().map(|c| c.re).collect();
    assert_eq!(re, [3, 4, 5, 0, 0]);
}

#[test]
fn bins_of_a_grid_do_not_collide() {
    let signal: Vec<i64> = (0..20).collect();
    let grid = stft_frames(&signal, 6, 5, &[1; 6], 1, 0, &unchanged);
    assert_eq!(grid.len(), 4 * 3);
    for f in 0..4 {
        for t in 0..3 {
            assert_eq!(grid[f * 3 + t].re, (t * 5 + f) as i64);
        }
    }
}

#[test]
fn a_tone_shows_in_its_bin() {
    let n = 64;
    let signal: Vec<f32> = (0..256)
        .map(|i| (2.0 * std::f32::consts::PI * 5.0 * i as f32 / n as f32).cos())
        .collect();
    let window = vec![1.0f32; n];
    let grid = stft_frames(&signal, n, 16, &window, 1.0 / 8.0, 0.0, &forward);
    let frames = (256 - 64) / 16 + 1;
    assert_eq!(grid.len(), 33 * frames);
    for f in 0..33 {
        for t in 0..frames {
            let bin = grid[f * frames + t];
            let size = (bin.re * bin.re + bin.im * bin.im).sqrt();
            let expected = if f == 5 { 32.0 / 8.0 } else { 0.0 };
            assert!((size - expected).abs() < 1e-3);
        }
    }
}

fn ones(left: &[i64], right: &[i64]) -> MagnitudeSpectrogram<i64> {
    compute_magnitude_spectrogram(left, right, &vec![1; NFFT], 1, 0, &unchanged)
}

#[test]
fn spectrogram_shows_the_mirrored_signal() {
    // With a transform that changes nothing, bin `f` of column `t` is the sample
    // `1024 * t + f` places behind the start of the front margin.
    let left: Vec<i64> = (0..3000).collect();
    let right: Vec<i64> = (0..3000).map(|i| 10_000 + i).collect();
    let out = ones(&left, &right);
    assert_eq!(out.freq_bins, 2048);
    assert_eq!(out.time_frames, 3);
    let plane = 2048 * 3;
    assert_eq!(out.data.len(), 4 * plane);
    let at = |f: usize, t: usize| f * 3 + t;
    assert_eq!(out.data[at(0, 0)], 1536);
    assert_eq!(out.data[at(1536, 0)], 0);
    assert_eq!(out.data[at(1024, 1)], 512);
    assert_eq!(out.data[at(2047, 2)], 2559);
    assert_eq!(out.data[2 * plane + at(0, 0)], 11_536);
    assert_eq!(out.data[2 * plane + at(2047, 2)], 12_559);
    assert!(out.data[plane..2 * plane].iter().all(|&v| v == 0));
    assert!(out.data[3 * plane..].iter().all(|&v| v == 0));
}

#[test]
fn no_column_of_the_left_channel_is_empty() {
    for n in [2usize, 1023, 1024, 1025, 5000] {
        let left = vec![1i64; n];
        let out = ones(&left, &left);
        assert_eq!(out.time_frames, (n + 1023) / 1024);
        let plane = 2048 * out.time_frames;
        assert!(out.data[..plane].iter().all(|&v| v == 1));
        assert!(out.data[2 * plane..3 * plane].iter().all(|&v| v == 1));
    }
}

#[test]
fn columns_without_a_frame_are_zero() {
    // The right channel is much shorter: of its four frames only two are shown.
    let left = vec![1i64; 3000];
    let out = ones(&left, &[10, 20]);
    let right = &out.data[2 * 2048 * 3..3 * 2048 * 3];
    for f in 0..2048 {
        let expected = if f % 2 == 0 { 10 } else { 20 };
        assert_eq!(right[f * 3], expected);
        assert_eq!(right[f * 3 + 1], expected);
        assert_eq!(right[f * 3 + 2], 0);
    }
}

#[test]
fn each_half_is_of_its_own_channel() {
    let left: Vec<i64> = (0..2500).map(|i| i * i % 97).collect();
    let right: Vec<i64> = (0..2500).map(|i| 3 * i + 1).collect();
    let a = ones(&left, &right);
    let half = a.data.len() / 2;
    // Swapping the channels swaps the halves.
    let b = ones(&right, &left);
    assert_ne!(a.data, b.data);
    assert_eq!(b.data[..half], a.data[half..]);
    assert_eq!(b.data[half..], a.data[..half]);
    // The first half does not depend on the right channel, nor on its length.
    for other in [vec![7i64; 2500], vec![5, 6]] {
        let d = ones(&left, &other);
        assert_eq!(d.data.len(), a.data.len());
        assert_eq!(d.data[..half], a.data[..half]);
    }
    // The second half does not depend on the samples of the left channel.
    let d = ones(&vec![7; 2500], &right);
    assert_eq!(d.data[half..], a.data[half..]);
}

#[test]
fn spectrogram_of_a_constant() {
    let window: Vec<f32> = (0..NFFT)
        .map(|i| 0.5 * (1.0 - (2.0 * std::f32::consts::PI * i as f32 / NFFT as f32).cos()))
        .collect();
    let left = vec![1.0f32; 2048];
    let right = vec![-1.0f32; 2048];
    let out = compute_magnitude_spectrogram(&left, &right, &window, 1.0 / 64.0, 0.0, &forward);
    assert_eq!(out.time_frames, 2);
    let plane = 2048 * 2;
    for t in 0..2 {
        assert!((out.data[t] - 32.0).abs() < 1e-2);
        assert!((out.data[2 + t] + 16.0).abs() < 1e-2);
        assert!(out.data[plane + t].abs() < 1e-2);
        assert!((out.data[2 * plane + t] + 32.0).abs() < 1e-2);
    }
}

fn parts(chunks: &[AudioChunk<i32>]) -> Vec<(usize, usize)> {
    chunks.iter().map(|c| (c.start, c.actual_len)).collect()
}

#[test]
fn a_signal_that_fits_is_one_chunk() {
    let chunks = build_chunks(&[1, 2, 3], &[4, 5], 3, 9);
    assert_eq!(parts(&chunks), [(0, 3)]);
    assert_eq!(chunks[0].left, [1, 2, 3]);
    assert_eq!(chunks[0].right, [4, 5]);
    let empty: [i32; 0] = [];
    let chunks = build_chunks(&empty, &[8], 0, 0);
    assert_eq!(parts(&chunks), [(0, 0)]);
    assert_eq!(chunks[0].right, [8]);
}

#[test]
fn chunks_overlap_and_the_last_is_shorter() {
    let left: Vec<i32> = (0..10).collect();
    let right: Vec<i32> = (100..112).collect();
    let chunks = build_chunks(&left, &right, 4, 1);
    assert_eq!(parts(&chunks), [(0, 4), (3, 4), (6, 4)]);
    assert_eq!(chunks[1].left, [3, 4, 5, 6]);
    assert_eq!(chunks[2].right, [106, 107, 108, 109]);
    let chunks = build_chunks(&left, &right, 6, 2);
    assert_eq!(parts(&chunks), [(0, 6), (4, 6)]);
    let chunks = build_chunks(&left, &right, 9, 2);
    assert_eq!(parts(&chunks), [(0, 9), (7, 3)]);
    assert_eq!(chunks[1].left, [7, 8, 9]);
}

#[test]
fn chunks_put_together_are_the_signal() {
    let left: Vec<i32> = (0..57).collect();
    let right: Vec<i32> = (1000..1057).collect();
    for chunk_size in 2..20 {
        for overlap in 0..chunk_size {
            let chunks = build_chunks(&left, &right, chunk_size, overlap);
            let mut l = chunks[0].left.clone();
            let mut r = chunks[0].right.clone();
            for pair in chunks.windows(2) {
                assert_eq!(pair[0].start + pair[0].actual_len, pair[1].start + overlap);
                l.extend_from_slice(&pair[1].left[overlap..]);
                r.extend_from_slice(&pair[1].right[overlap..]);
            }
            assert_eq!(l, left);
            assert_eq!(r, right);
        }
    }
}
