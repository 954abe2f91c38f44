//! The analysis and synthesis programs, carried out on real tensors.
use core::f32::consts::PI;
use std::sync::Arc;

use demucs::cac::{ispec_cac, spec_cac};
use demucs::reflect::reflect_pad;
use demucs::spectrogram::compute_magnitude_spectrogram;
use demucs::stft::{HOP_LENGTH, NFFT, TRAINING_LENGTH};
use demucs::tensor::{StftOptions, TensorOp};
use rustfft::num_complex::Complex;
use rustfft::{Fft, FftPlanner};

struct Tensor {
    dims: Vec<usize>,
    data: Vec<f32>,
}

fn hann(n: usize) -> Vec<f32> {
    (0..n)
        .map(|i| {
            let x = 2.0 * std::f64::consts::PI * i as f64 / n as f64;
            (0.5 * (1.0 - x.cos())) as f32
        })
        .collect()
}

fn checked(options: &StftOptions) {
    assert!(options.center && options.onesided);
    assert!(options.n_fft.is_power_of_two());
    assert_eq!(options.win_length, options.n_fft);
}

fn stft(x: Tensor, options: &StftOptions) -> Tensor {
    checked(options);
    let n = options.n_fft;
    let bins = n / 2 + 1;
    let window = hann(n);
    let fft: Arc<dyn Fft<f32>> = FftPlanner::new().plan_fft_forward(n);
    let rows = x.dims[0];
    let len = x.dims[1];
    let frames = len / options.hop_length + 1;
    let mut data = Vec::with_capacity(rows * frames * bins * 2);
    let mut buf = vec![Complex::new(0.0f32, 0.0); n];
    for row in x.data.chunks_exact(len) {
        let centred = reflect_pad(row, n / 2, n / 2);
        for t in 0..frames {
            let frame = &centred[t * options.hop_length..t * options.hop_length + n];
            for i in 0..n {
                buf[i] = Complex::new(frame[i] * window[i], 0.0);
            }
            fft.process(&mut buf);
            for bin in &buf[..bins] {
                data.push(bin.re);
                data.push(bin.im);
            }
        }
    }
    Tensor { dims: vec![rows, frames, bins, 2], data }
}

fn istft(x: Tensor, options: &StftOptions, length: usize) -> Tensor {
    checked(options);
    let n = options.n_fft;
    let hop = options.hop_length;
    let window = hann(n);
    let fft: Arc<dyn Fft<f32>> = FftPlanner::new().plan_fft_inverse(n);
    let (rows, frames, bins) = (x.dims[0], x.dims[1], x.dims[2]);
    assert_eq!(bins, n / 2 + 1);
    let full = n + (frames - 1) * hop;
    let mut data = Vec::with_capacity(rows * length);
    let mut buf = vec![Complex::new(0.0f32, 0.0); n];
    for row in x.data.chunks_exact(frames * bins * 2) {
        let mut out = vec![0.0f32; full];
        let mut weight = vec![0.0f32; full];
        for (t, frame) in row.chunks_exact(bins * 2).enumerate() {
            for f in 0..bins {
                let bin = Complex::new(frame[2 * f], frame[2 * f + 1]);
                buf[f] = bin;
                if f > 0 && f < n / 2 {
                    buf[n - f] = bin.conj();
                }
            }
            fft.process(&mut buf);
            for i in 0..n {
                out[t * hop + i] += buf[i].re / n as f32 * window[i];
                weight[t * hop + i] += window[i] * window[i];
            }
        }
        for k in n / 2..n / 2 + length {
            data.push(if k < full { out[k] / weight[k].max(1e-10) } else { 0.0 });
        }
    }
    Tensor { dims: vec![rows, length], data }
}

/// Replaces the cells of `axis` by what `f` makes of them, one run of equal
/// positions of the axes behind it at a time.
fn along(x: Tensor, axis: usize, len: usize, from: impl Fn(usize) -> Option<usize>) -> Tensor {
    let inner: usize = x.dims[axis + 1..].iter().product();
    let old = x.dims[axis];
    let mut data = Vec::new();
    for block in x.data.chunks_exact(old * inner) {
        for k in 0..len {
            match from(k) {
                Some(j) => data.extend_from_slice(&block[j * inner..(j + 1) * inner]),
                None => data.extend(vec![0.0; inner]),
            }
        }
    }
    let mut dims = x.dims;
    dims[axis] = len;
    Tensor { dims, data }
}

fn permute(x: Tensor, axes: &[usize]) -> Tensor {
    let n = axes.len();
    let mut strides = vec![1; n];
    for k in (0..n - 1).rev() {
        strides[k] = strides[k + 1] * x.dims[k + 1];
    }
    let dims: Vec<usize> = axes.iter().map(|&a| x.dims[a]).collect();
    let steps: Vec<usize> = axes.iter().map(|&a| strides[a]).collect();
    let mut data = Vec::with_capacity(x.data.len());
    let mut idx = vec![0; n];
    let mut at = 0;
    for _ in 0..x.data.len() {
        data.push(x.data[at]);
        for k in (0..n).rev() {
            idx[k] += 1;
            at += steps[k];
            if idx[k] < dims[k] {
                break;
            }
            at -= steps[k] * dims[k];
            idx[k] = 0;
        }
    }
    Tensor { dims, data }
}

fn carry_out(mut x: Tensor, program: &[TensorOp]) -> Tensor {
    for op in program {
        x = match op {
            TensorOp::PadReflect { before, after } => {
                let len = *x.dims.last().unwrap();
                let mut data = Vec::new();
                for row in x.data.chunks_exact(len) {
                    data.extend(reflect_pad(row, *before, *after));
                }
                let mut dims = x.dims;
                *dims.last_mut().unwrap() = before + len + after;
                Tensor { dims, data }
            }
            TensorOp::PadZeros { axis, before, after } => {
                let old = x.dims[*axis];
                along(x, *axis, before + old + after, |k| {
                    if k >= *before && k < before + old {
                        Some(k - before)
                    } else {
                        None
                    }
                })
            }
            TensorOp::Reshape { dims } => {
                assert_eq!(dims.iter().product::<usize>(), x.data.len());
                Tensor { dims: dims.clone(), data: x.data }
            }
            TensorOp::Permute { axes } => permute(x, axes),
            TensorOp::Narrow { axis, start, len } => along(x, *axis, *len, |k| Some(start + k)),
            TensorOp::Stft { options } => stft(x, options),
            TensorOp::Istft { options, length } => istft(x, options, *length),
            TensorOp::DivideByRoot { of } => {
                let root = (*of as f32).sqrt();
                Tensor { dims: x.dims, data: x.data.iter().map(|v| v / root).collect() }
            }
            TensorOp::MultiplyByRoot { of } => {
                let root = (*of as f32).sqrt();
                Tensor { dims: x.dims, data: x.data.iter().map(|v| v * root).collect() }
            }
        };
    }
    x
}

fn analysed(x: Tensor) -> Tensor {
    let program = spec_cac([x.dims[0], x.dims[1], x.dims[2]]);
    carry_out(x, &program)
}

fn synthesised(z: Tensor, length: usize) -> Tensor {
    let program = ispec_cac([z.dims[0], z.dims[1], z.dims[2], z.dims[3]], length);
    carry_out(z, &program)
}

#[test]
fn spec_cac_output_shape() {
    let t = TRAINING_LENGTH;
    let x = Tensor { dims: vec![1, 2, t], data: vec![0.0; 2 * t] };
    let z = analysed(x);
    assert_eq!(z.dims, [1, 4, NFFT / 2, 336]);
}

#[test]
fn ispec_recovers_length() {
    let length = TRAINING_LENGTH;
    let x = Tensor { dims: vec![1, 2, length], data: vec![0.0; 2 * length] };
    let z = analysed(x);
    let recon = synthesised(z, length);
    assert_eq!(recon.dims, [1, 2, length]);
}

#[test]
fn round_trip_interior_matches() {
    let length = TRAINING_LENGTH;
    let mut data = Vec::with_capacity(2 * length);
    for c in 0..2 {
        for i in 0..length {
            let t = i as f32;
            let base = (2.0 * PI * 0.01 * t).sin() + 0.5 * (2.0 * PI * 0.1 * t).cos();
            data.push(if c == 0 { base } else { 0.5 * base });
        }
    }
    let x = Tensor { dims: vec![1, 2, length], data: data.clone() };
    let z = analysed(x);
    let recon = synthesised(z, length);

    let skip = 6 * HOP_LENGTH;
    for c in 0..2 {
        let mut max_err = 0.0f32;
        for i in skip..(length - skip) {
            let orig = data[c * length + i];
            let got = recon.data[c * length + i];
            max_err = max_err.max((orig - got).abs());
        }
        assert!(
            max_err < 1e-3,
            "channel {c} interior reconstruction error too large: {max_err}",
        );
    }
}

#[test]
fn parts_of_a_channel_stand_together() {
    // A constant has a real spectrum, all of it in the lowest bins; the second
    // channel is twice the first.
    let t = 8192;
    let mut data = vec![1.0; t];
    data.extend(vec![2.0; t]);
    let z = analysed(Tensor { dims: vec![1, 2, t], data });
    assert_eq!(z.dims, [1, 4, 2048, 8]);
    let at = |channel: usize, f: usize, frame: usize| z.data[(channel * 2048 + f) * 8 + frame];
    for frame in 0..8 {
        assert!((at(0, 0, frame) - 32.0).abs() < 1e-3);
        assert!(at(1, 0, frame).abs() < 1e-3);
        assert!((at(2, 0, frame) - 64.0).abs() < 1e-3);
        assert!(at(3, 0, frame).abs() < 1e-3);
    }
}

#[test]
fn analysis_program_step_by_step() {
    let program = spec_cac([3, 2, 5000]);
    // Five hops; behind the signal one and a half hops and 120 samples more.
    assert_eq!(
        format!("{:?}", program[0]),
        "PadReflect { before: 1536, after: 1656 }"
    );
    assert_eq!(format!("{:?}", program[1]), "Reshape { dims: [6, 8192] }");
    assert_eq!(
        format!("{:?}", program[2]),
        "Stft { options: StftOptions { n_fft: 4096, hop_length: 1024, win_length: 4096, \
         center: true, onesided: true } }"
    );
    assert_eq!(format!("{:?}", program[3]), "DivideByRoot { of: 4096 }");
    assert_eq!(
        format!("{:?}", &program[4..]),
        "[Narrow { axis: 2, start: 0, len: 2048 }, Narrow { axis: 1, start: 2, len: 5 }, \
         Reshape { dims: [3, 2, 5, 2048, 2] }, Permute { axes: [0, 1, 4, 3, 2] }, \
         Reshape { dims: [3, 4, 2048, 5] }]"
    );
}

#[test]
fn synthesis_program_step_by_step() {
    let program = ispec_cac([3, 4, 2048, 5], 5000);
    assert_eq!(
        format!("{:?}", &program[..5]),
        "[Reshape { dims: [3, 2, 2, 2048, 5] }, Permute { axes: [0, 1, 4, 3, 2] }, \
         PadZeros { axis: 3, before: 0, after: 1 }, PadZeros { axis: 2, before: 2, after: 2 }, \
         Reshape { dims: [6, 9, 2049, 2] }]"
    );
    assert!(matches!(program[5], TensorOp::Istft { length: 8192, .. }));
    assert_eq!(
        format!("{:?}", &program[6..]),
        "[MultiplyByRoot { of: 4096 }, Reshape { dims: [3, 2, 8192] }, \
         Narrow { axis: 2, start: 1536, len: 5000 }]"
    );
}

#[test]
fn synthesis_puts_cells_back() {
    // A packed spectrogram whose cells are all different, with small dimensions
    // but for the bins.
    let frames = 3;
    let cells = 4 * 2048 * frames;
    let data: Vec<f32> = (0..cells).map(|i| i as f32).collect();
    let z = Tensor { dims: vec![1, 4, 2048, frames], data: data.clone() };
    let program = ispec_cac([1, 4, 2048, frames], 3000);
    let unpacked = carry_out(z, &program[..5]);
    assert_eq!(unpacked.dims, [2, 7, 2049, 2]);
    for row in 0..2 {
        for t in 0..7 {
            for f in [0, 1, 2047, 2048] {
                for part in 0..2 {
                    let got = unpacked.data[((row * 7 + t) * 2049 + f) * 2 + part];
                    let expected = if f < 2048 && t >= 2 && t < 5 {
                        data[((2 * row + part) * 2048 + f) * frames + t - 2]
                    } else {
                        0.0
                    };
                    assert_eq!(got, expected);
                }
            }
        }
    }
}

#[test]
fn spectrograms_are_laid_out_alike() {
    let n = 5000;
    let left: Vec<f32> = (0..n).map(|i| (0.03 * i as f32).sin()).collect();
    let right: Vec<f32> = (0..n).map(|i| (0.2 * i as f32).cos() - 0.1).collect();
    let fft: Arc<dyn Fft<f32>> = FftPlanner::new().plan_fft_forward(NFFT);
    let forward = |frame: Vec<demucs::stft::Complex<f32>>| {
        let mut buf: Vec<Complex<f32>> =
            frame.iter().map(|c| Complex::new(c.re, c.im)).collect();
        fft.process(&mut buf);
        let out: Vec<demucs::stft::Complex<f32>> = buf
            .iter()
            .map(|c| demucs::stft::Complex { re: c.re, im: c.im })
            .collect();
        out
    };
    let shown = compute_magnitude_spectrogram(&left, &right, &hann(NFFT), 1.0 / 64.0, 0.0, &forward);
    let mut data = left;
    data.extend(right);
    let packed = analysed(Tensor { dims: vec![1, 2, n], data });
    assert_eq!(packed.dims, [1, 4, shown.freq_bins, shown.time_frames]);
    assert_eq!(packed.data.len(), shown.data.len());
    for (a, b) in packed.data.iter().zip(&shown.data) {
        assert!((a - b).abs() < 1e-3);
    }
}
