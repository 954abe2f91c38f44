//! Short-time Fourier analysis.
//!
//! Everything here is indifferent to what a sample is: samples are copied,
//! multiplied by the analysis window and handed, frame by frame, to a Fourier
//! transform that the caller supplies.
use core::ops::Mul;

use vstd::arithmetic::div_mod::lemma_fundamental_div_mod_converse;
use vstd::prelude::*;

verus! {

/// The rate, in samples per second, that the model works at.
pub const DEMUCS_SAMPLE_RATE: u32 = 44100;

/// The number of samples in a training segment.
pub const TRAINING_LENGTH: usize = 343980;

/// The number of samples in an analysis frame.
pub const NFFT: usize = 4096;

/// The number of samples between the starts of neighbouring frames.
pub const HOP_LENGTH: usize = NFFT / 4;

/// The number of samples that neighbouring chunks share, about one second.
pub const OVERLAP: usize = 44100;

/// A complex number.
#[derive(Clone, Copy, Debug)]
pub struct Complex<T> {
    pub re: T,
    pub im: T,
}

/// The number of frames that fit a signal of `len` samples; a signal shorter
/// than a frame still has one.
pub open spec fn frame_count(len: int, nfft: int, hop: int) -> int {
    (if len >= nfft {
        len - nfft
    } else {
        0
    }) / hop + 1
}

/// Where frequency bin `f` of frame `t` stands when each bin's values over all
/// frames stand together.
pub open spec fn bin_at(f: int, t: int, frames: int) -> int {
    f * frames + t
}

/// The sample at position `k`, with `zero` behind the end.
pub open spec fn sample_at<T>(signal: Seq<T>, k: int, zero: T) -> T {
    if 0 <= k < signal.len() {
        signal[k]
    } else {
        zero
    }
}

/// Whether `out` is `sample` times `weight` times `norm`.
pub open spec fn weighted<T: Copy + Mul<Output = T>>(
    sample: T,
    weight: T,
    norm: T,
    out: T,
) -> bool {
    exists|m: T| #[trigger]
        call_ensures(T::mul, (sample, weight), m) && call_ensures(T::mul, (m, norm), out)
}

/// Whether `frame` is the windowed stretch of `signal` that starts at `offset`.
pub open spec fn is_frame<T: Copy + Mul<Output = T>>(
    signal: Seq<T>,
    offset: int,
    window: Seq<T>,
    nfft: int,
    norm: T,
    zero: T,
    frame: Seq<Complex<T>>,
) -> bool {
    &&& frame.len() == nfft
    &&& forall|i: int|
        0 <= i < nfft ==> {
            &&& weighted(
                sample_at(signal, offset + i, zero),
                window[i],
                norm,
                (#[trigger] frame[i]).re,
            )
            &&& frame[i].im == zero
        }
}

/// Whether `spectrum` is what `fft` makes of the frame at `offset`.
pub open spec fn is_spectrum<
    T: Copy + Mul<Output = T>,
    F: Fn(Vec<Complex<T>>) -> Vec<Complex<T>>,
>(
    signal: Seq<T>,
    offset: int,
    window: Seq<T>,
    nfft: int,
    norm: T,
    zero: T,
    fft: F,
    spectrum: Vec<Complex<T>>,
) -> bool {
    exists|frame: Vec<Complex<T>>|
        is_frame(signal, offset, window, nfft, norm, zero, frame@) && #[trigger] call_ensures(
            fft,
            (frame,),
            spectrum,
        )
}

/// Whether `spectra` are the spectra of all frames of `signal`, in order.
pub open spec fn are_spectra<
    T: Copy + Mul<Output = T>,
    F: Fn(Vec<Complex<T>>) -> Vec<Complex<T>>,
>(
    signal: Seq<T>,
    nfft: int,
    hop: int,
    window: Seq<T>,
    norm: T,
    zero: T,
    fft: F,
    spectra: Seq<Vec<Complex<T>>>,
) -> bool {
    &&& spectra.len() == frame_count(signal.len() as int, nfft, hop)
    &&& forall|t: int|
        0 <= t < spectra.len() ==> is_spectrum(
            signal,
            t * hop,
            window,
            nfft,
            norm,
            zero,
            fft,
            #[trigger] spectra[t],
        )
}

/// Whether `grid` shows the lower half of each of `spectra`, bin by bin.
pub open spec fn shows_spectra<T>(
    spectra: Seq<Vec<Complex<T>>>,
    nfft: int,
    grid: Seq<Complex<T>>,
) -> bool {
    &&& grid.len() == (nfft / 2 + 1) * spectra.len()
    &&& forall|f: int, t: int|
        0 <= f <= nfft / 2 && 0 <= t < spectra.len() ==> grid[#[trigger] bin_at(
            f,
            t,
            spectra.len() as int,
        )] == spectra[t]@[f]
}

/// Whether `grid` is the short-time Fourier transform of `signal`.
pub open spec fn is_stft<
    T: Copy + Mul<Output = T>,
    F: Fn(Vec<Complex<T>>) -> Vec<Complex<T>>,
>(
    signal: Seq<T>,
    nfft: int,
    hop: int,
    window: Seq<T>,
    norm: T,
    zero: T,
    fft: F,
    grid: Seq<Complex<T>>,
) -> bool {
    exists|spectra: Seq<Vec<Complex<T>>>| #[trigger]
        are_spectra(signal, nfft, hop, window, norm, zero, fft, spectra) && shows_spectra(
            spectra,
            nfft,
            grid,
        )
}

/// Whether samples can be multiplied, and `fft` takes any frame of `nfft`
/// values and gives as many back.
pub open spec fn can_transform<
    T: Copy + Mul<Output = T>,
    F: Fn(Vec<Complex<T>>) -> Vec<Complex<T>>,
>(fft: F, nfft: int) -> bool {
    &&& forall|x: T, y: T| call_requires(T::mul, (x, y))
    &&& forall|v: Vec<Complex<T>>| v@.len() == nfft ==> call_requires(fft, (v,))
    &&& forall|v: Vec<Complex<T>>, o: Vec<Complex<T>>|
        v@.len() == nfft && call_ensures(fft, (v,), o) ==> o@.len() == nfft
}

proof fn lemma_bin_in_grid(f: int, t: int, bins: int, frames: int)
    requires
        0 <= f < bins,
        0 <= t < frames,
    ensures
        0 <= bin_at(f, t, frames) < bins * frames,
{
    assert(f * frames + t < bins * frames) by (nonlinear_arith)
        requires
            0 <= f < bins,
            0 <= t < frames,
    ;
    assert(0 <= f * frames) by (nonlinear_arith)
        requires
            0 <= f,
            0 < frames,
    ;
}

proof fn lemma_bins_apart(f: int, t: int, f2: int, t2: int, frames: int)
    requires
        0 <= t < frames,
        0 <= t2 < frames,
        bin_at(f, t, frames) == bin_at(f2, t2, frames),
    ensures
        f == f2,
        t == t2,
{
    lemma_fundamental_div_mod_converse(bin_at(f, t, frames), frames, f, t);
    lemma_fundamental_div_mod_converse(bin_at(f, t, frames), frames, f2, t2);
}

/// No two of the bins of a grid share a place.
pub proof fn law_bins_do_not_collide(f: int, t: int, f2: int, t2: int, frames: int)
    requires
        0 <= t < frames,
        0 <= t2 < frames,
        (f, t) != (f2, t2),
    ensures
        bin_at(f, t, frames) != bin_at(f2, t2, frames),
{
    if bin_at(f, t, frames) == bin_at(f2, t2, frames) {
        lemma_bins_apart(f, t, f2, t2, frames);
    }
}

/// The frames of a signal are those that fit it: the last one ends within the
/// signal and one more would not; a signal shorter than a frame has one.
pub proof fn law_frames_fill_signal(len: int, nfft: int, hop: int)
    requires
        0 <= len,
        1 <= nfft,
        1 <= hop,
    ensures
        frame_count(len, nfft, hop) >= 1,
        len < nfft ==> frame_count(len, nfft, hop) == 1,
        len >= nfft ==> (frame_count(len, nfft, hop) - 1) * hop + nfft <= len < frame_count(
            len,
            nfft,
            hop,
        ) * hop + nfft,
{
    let spare = if len >= nfft {
        len - nfft
    } else {
        0
    };
    let q = spare / hop;
    vstd::arithmetic::div_mod::lemma_fundamental_div_mod(spare, hop);
    vstd::arithmetic::div_mod::lemma_mod_bound(spare, hop);
    vstd::arithmetic::div_mod::lemma_div_pos_is_pos(spare, hop);
    if len < nfft {
        vstd::arithmetic::div_mod::lemma_basic_div(0, hop);
    }
    assert(q * hop == hop * q) by (nonlinear_arith);
    assert((q + 1) * hop == q * hop + hop) by (nonlinear_arith);
}

/// Every sample of a signal stands in the frames that reach it: value `i` of
/// the frame at `offset` is the signal's sample `offset + i`, times the
/// window's weight there, times the factor; behind the signal's end it is made
/// of `zero`, as is every imaginary part.
pub proof fn law_frames_hold_the_signal<T: Copy + Mul<Output = T>>(
    signal: Seq<T>,
    offset: int,
    window: Seq<T>,
    nfft: int,
    norm: T,
    zero: T,
    frame: Seq<Complex<T>>,
    i: int,
)
    requires
        0 <= offset,
        0 <= i < nfft,
        is_frame(signal, offset, window, nfft, norm, zero, frame),
    ensures
        frame.len() == nfft,
        frame[i].im == zero,
        offset + i < signal.len() ==> exists|m: T| #[trigger]
            call_ensures(T::mul, (signal[offset + i], window[i]), m) && call_ensures(
                T::mul,
                (m, norm),
                frame[i].re,
            ),
        offset + i >= signal.len() ==> exists|m: T| #[trigger]
            call_ensures(T::mul, (zero, window[i]), m) && call_ensures(
                T::mul,
                (m, norm),
                frame[i].re,
            ),
{
    assert(weighted(sample_at(signal, offset + i, zero), window[i], norm, frame[i].re));
}

/// What stands in the grid of a signal: for every frame `t` that fits the
/// signal there is a list of values made, one by one, of the samples from
/// `t * hop` on, and what the transform gave for it stands, bin by bin, in the
/// column of that frame.
pub proof fn law_grid_shows_transformed_samples<
    T: Copy + Mul<Output = T>,
    F: Fn(Vec<Complex<T>>) -> Vec<Complex<T>>,
>(
    signal: Seq<T>,
    nfft: int,
    hop: int,
    window: Seq<T>,
    norm: T,
    zero: T,
    fft: F,
    grid: Seq<Complex<T>>,
    frames: int,
    t: int,
)
    requires
        1 <= nfft,
        1 <= hop,
        is_stft(signal, nfft, hop, window, norm, zero, fft, grid),
        signal.len() < nfft ==> frames == 1,
        signal.len() >= nfft ==> (frames - 1) * hop + nfft <= signal.len() < frames * hop + nfft,
        0 <= t < frames,
    ensures
        grid.len() == (nfft / 2 + 1) * frames,
        exists|v: Vec<Complex<T>>, o: Vec<Complex<T>>|
            {
                &&& v@.len() == nfft
                &&& forall|i: int|
                    0 <= i < nfft ==> {
                        &&& (#[trigger] v@[i]).im == zero
                        &&& exists|x: T, m: T|
                            {
                                &&& x == if t * hop + i < signal.len() {
                                    signal[t * hop + i]
                                } else {
                                    zero
                                }
                                &&& #[trigger] call_ensures(T::mul, (x, window[i]), m)
                                &&& call_ensures(T::mul, (m, norm), v@[i].re)
                            }
                    }
                &&& #[trigger] call_ensures(fft, (v,), o)
                &&& forall|f: int| 0 <= f <= nfft / 2 ==> grid[f * frames + t] == #[trigger] o@[f]
            },
{
    let len = signal.len() as int;
    law_frames_fill_signal(len, nfft, hop);
    let count = frame_count(len, nfft, hop);
    assert(count == frames) by {
        if len >= nfft {
            assert(count <= frames) by (nonlinear_arith)
                requires
                    (count - 1) * hop + nfft <= len,
                    len < frames * hop + nfft,
                    hop >= 1,
            ;
            assert(frames <= count) by (nonlinear_arith)
                requires
                    (frames - 1) * hop + nfft <= len,
                    len < count * hop + nfft,
                    hop >= 1,
            ;
        }
    }
    let spectra = choose|spectra: Seq<Vec<Complex<T>>>| #[trigger]
        are_spectra(signal, nfft, hop, window, norm, zero, fft, spectra) && shows_spectra(
            spectra,
            nfft,
            grid,
        );
    let o = spectra[t];
    assert(is_spectrum(signal, t * hop, window, nfft, norm, zero, fft, o));
    let v = choose|v: Vec<Complex<T>>|
        is_frame(signal, t * hop, window, nfft, norm, zero, v@) && #[trigger] call_ensures(
            fft,
            (v,),
            o,
        );
    assert(0 <= t * hop) by (nonlinear_arith)
        requires
            0 <= t,
            1 <= hop,
    ;
    assert forall|i: int| 0 <= i < nfft implies {
        &&& (#[trigger] v@[i]).im == zero
        &&& exists|x: T, m: T|
            {
                &&& x == if t * hop + i < signal.len() {
                    signal[t * hop + i]
                } else {
                    zero
                }
                &&& #[trigger] call_ensures(T::mul, (x, window[i]), m)
                &&& call_ensures(T::mul, (m, norm), v@[i].re)
            }
    } by {
        law_frames_hold_the_signal(signal, t * hop, window, nfft, norm, zero, v@, i);
    }
    assert forall|f: int| 0 <= f <= nfft / 2 implies grid[f * frames + t] == #[trigger] o@[f] by {
        assert(grid[bin_at(f, t, frames)] == spectra[t]@[f]);
    }
}

/// Whether the product of samples and the transform are functions of their
/// arguments: what goes in alike, for frames of `nfft` values, comes out alike.
pub open spec fn is_function<
    T: Copy + Mul<Output = T>,
    F: Fn(Vec<Complex<T>>) -> Vec<Complex<T>>,
>(fft: F, nfft: int) -> bool {
    &&& forall|x: T, y: T, p: T, q: T| #[trigger]
        call_ensures(T::mul, (x, y), p) && #[trigger] call_ensures(T::mul, (x, y), q) ==> p == q
    &&& forall|v: Vec<Complex<T>>, w: Vec<Complex<T>>, p: Vec<Complex<T>>, q: Vec<Complex<T>>|
        v@ == w@ && v@.len() == nfft && #[trigger] call_ensures(fft, (v,), p)
            && #[trigger] call_ensures(fft, (w,), q) ==> p@ == q@
}

proof fn lemma_one_frame<T: Copy + Mul<Output = T>, F: Fn(Vec<Complex<T>>) -> Vec<Complex<T>>>(
    signal: Seq<T>,
    offset: int,
    window: Seq<T>,
    nfft: int,
    norm: T,
    zero: T,
    fft: F,
    v: Seq<Complex<T>>,
    w: Seq<Complex<T>>,
)
    requires
        is_function::<T, F>(fft, nfft),
        is_frame(signal, offset, window, nfft, norm, zero, v),
        is_frame(signal, offset, window, nfft, norm, zero, w),
    ensures
        v == w,
{
    assert forall|i: int| 0 <= i < nfft implies v[i] == w[i] by {
        let sample = sample_at(signal, offset + i, zero);
        assert(weighted(sample, window[i], norm, v[i].re));
        assert(weighted(sample, window[i], norm, w[i].re));
    }
    assert(v =~= w);
}

/// Where product and transform are functions of their arguments, a signal has
/// one short-time Fourier transform.
pub proof fn law_signal_has_one_stft<
    T: Copy + Mul<Output = T>,
    F: Fn(Vec<Complex<T>>) -> Vec<Complex<T>>,
>(
    signal: Seq<T>,
    nfft: int,
    hop: int,
    window: Seq<T>,
    norm: T,
    zero: T,
    fft: F,
    a: Seq<Complex<T>>,
    b: Seq<Complex<T>>,
)
    requires
        nfft >= 1,
        hop >= 1,
        is_function::<T, F>(fft, nfft),
        is_stft(signal, nfft, hop, window, norm, zero, fft, a),
        is_stft(signal, nfft, hop, window, norm, zero, fft, b),
    ensures
        a == b,
{
    let p = choose|spectra: Seq<Vec<Complex<T>>>| #[trigger]
        are_spectra(signal, nfft, hop, window, norm, zero, fft, spectra) && shows_spectra(
            spectra,
            nfft,
            a,
        );
    let q = choose|spectra: Seq<Vec<Complex<T>>>| #[trigger]
        are_spectra(signal, nfft, hop, window, norm, zero, fft, spectra) && shows_spectra(
            spectra,
            nfft,
            b,
        );
    let frames = frame_count(signal.len() as int, nfft, hop);
    assert forall|t: int| 0 <= t < frames implies (#[trigger] p[t])@ == q[t]@ by {
        assert(is_spectrum(signal, t * hop, window, nfft, norm, zero, fft, p[t]));
        assert(is_spectrum(signal, t * hop, window, nfft, norm, zero, fft, q[t]));
        let v = choose|v: Vec<Complex<T>>|
            is_frame(signal, t * hop, window, nfft, norm, zero, v@) && #[trigger] call_ensures(
                fft,
                (v,),
                p[t],
            );
        let w = choose|w: Vec<Complex<T>>|
            is_frame(signal, t * hop, window, nfft, norm, zero, w@) && #[trigger] call_ensures(
                fft,
                (w,),
                q[t],
            );
        lemma_one_frame(signal, t * hop, window, nfft, norm, zero, fft, v@, w@);
    }
    assert forall|k: int| 0 <= k < a.len() implies a[k] == b[k] by {
        let f = k / frames;
        let t = k % frames;
        vstd::arithmetic::div_mod::lemma_fundamental_div_mod(k, frames);
        vstd::arithmetic::div_mod::lemma_mod_bound(k, frames);
        assert(f * frames == frames * f) by (nonlinear_arith);
        assert(bin_at(f, t, frames) == k);
        assert(0 <= f <= nfft / 2) by (nonlinear_arith)
            requires
                k == f * frames + t,
                0 <= t < frames,
                0 <= k < (nfft / 2 + 1) * frames,
        ;
        assert(a[bin_at(f, t, frames)] == p[t]@[f]);
        assert(b[bin_at(f, t, frames)] == q[t]@[f]);
    }
    assert(a =~= b);
}

fn filled<T: Copy>(value: T, n: usize) -> (out: Vec<T>)
    ensures
        out@ == Seq::new(n as nat, |i: int| value),
{
    let mut out: Vec<T> = Vec::with_capacity(n);
    let mut i: usize = 0;
    while i < n
        invariant
            i <= n,
            out@ == Seq::new(i as nat, |j: int| value),
        decreases n - i,
    {
        out.push(value);
        i = i + 1;
        assert(out@ =~= Seq::new(i as nat, |j: int| value));
    }
    out
}

/// Cuts the frame at `offset` out of `signal` and weighs it with `window`.
fn windowed_frame<T: Copy + Mul<Output = T>>(
    signal: &[T],
    offset: usize,
    window: &[T],
    nfft: usize,
    norm_factor: T,
    zero: T,
) -> (frame: Vec<Complex<T>>)
    requires
        offset + nfft <= usize::MAX,
        nfft <= window@.len(),
        forall|x: T, y: T| call_requires(T::mul, (x, y)),
    ensures
        is_frame(
            signal@,
            offset as int,
            window@,
            nfft as int,
            norm_factor,
            zero,
            frame@,
        ),
{
    let mut frame: Vec<Complex<T>> = Vec::with_capacity(nfft);
    let mut i: usize = 0;
    while i < nfft
        invariant
            i <= nfft,
            offset + nfft <= usize::MAX,
            nfft <= window@.len(),
            forall|x: T, y: T| call_requires(T::mul, (x, y)),
            is_frame(signal@, offset as int, window@, i as int, norm_factor, zero, frame@),
        decreases nfft - i,
    {
        let sample: T = if offset + i < signal.len() {
            signal[offset + i]
        } else {
            zero
        };
        let by_window: T = sample * window[i];
        let value: T = by_window * norm_factor;
        assert(call_ensures(T::mul, (sample, window@[i as int]), by_window));
        assert(weighted(sample, window@[i as int], norm_factor, value));
        frame.push(Complex { re: value, im: zero });
        i = i + 1;
    }
    frame
}

/// Computes the short-time Fourier transform of `signal`: the lower
/// `nfft / 2 + 1` bins of every frame, each frame starting `hop` samples after
/// the one before it. The values of one bin over all frames stand together.
pub fn stft_frames<
    T: Copy + Mul<Output = T>,
    F: Fn(Vec<Complex<T>>) -> Vec<Complex<T>>,
>(
    signal: &[T],
    nfft: usize,
    hop: usize,
    window: &[T],
    norm_factor: T,
    zero: T,
    fft: &F,
) -> (grid: Vec<Complex<T>>)
    requires
        nfft >= 1,
        hop >= 1,
        nfft <= window@.len(),
        (nfft / 2 + 1) * frame_count(signal@.len() as int, nfft as int, hop as int) <= usize::MAX,
        can_transform::<T, F>(*fft, nfft as int),
    ensures
        is_stft(
            signal@,
            nfft as int,
            hop as int,
            window@,
            norm_factor,
            zero,
            *fft,
            grid@,
        ),
{
    let freq_bins: usize = nfft / 2 + 1;
    let spare: usize = signal.len().saturating_sub(nfft);
    let ghost frames = frame_count(signal@.len() as int, nfft as int, hop as int);
    assert(spare as int / hop as int <= spare) by (nonlinear_arith)
        requires
            hop >= 1,
            spare >= 0,
    ;
    assert(frames <= freq_bins * frames) by (nonlinear_arith)
        requires
            freq_bins >= 1,
            frames >= 1,
    ;
    let num_frames: usize = spare / hop + 1;
    assert(num_frames == frames);
    assert(freq_bins * num_frames <= usize::MAX);

    let mut grid: Vec<Complex<T>> = filled(Complex { re: zero, im: zero }, freq_bins * num_frames);
    let ghost mut spectra: Seq<Vec<Complex<T>>> = Seq::empty();

    let mut t: usize = 0;
    while t < num_frames
        invariant
            t <= num_frames,
            nfft >= 1,
            hop >= 1,
            freq_bins == nfft / 2 + 1,
            nfft <= window@.len(),
            spare as int == (if signal@.len() >= nfft {
                signal@.len() - nfft
            } else {
                0
            }),
            num_frames == spare as int / hop as int + 1,
            num_frames == frame_count(signal@.len() as int, nfft as int, hop as int),
            grid@.len() == freq_bins * num_frames,
            freq_bins * num_frames <= usize::MAX,
            can_transform::<T, F>(*fft, nfft as int),
            spectra.len() == t,
            forall|u: int|
                0 <= u < t ==> is_spectrum(
                    signal@,
                    u * hop,
                    window@,
                    nfft as int,
                    norm_factor,
                    zero,
                    *fft,
                    #[trigger] spectra[u],
                ),
            forall|f: int, u: int|
                0 <= f < freq_bins && 0 <= u < t ==> grid@[#[trigger] bin_at(
                    f,
                    u,
                    num_frames as int,
                )] == spectra[u]@[f],
        decreases num_frames - t,
    {
        assert(t * hop <= spare) by {
            vstd::arithmetic::div_mod::lemma_fundamental_div_mod(spare as int, hop as int);
            assert(t * hop <= (spare as int / hop as int) * hop) by (nonlinear_arith)
                requires
                    t <= spare as int / hop as int,
                    hop >= 1,
            ;
            assert((spare as int / hop as int) * hop == hop * (spare as int / hop as int))
                by (nonlinear_arith);
        }
        let offset: usize = t * hop;
        assert(offset + nfft <= usize::MAX) by {
            assert(signal@.len() == signal.len());
            if signal@.len() < nfft {
                assert(offset == 0);
            }
        }
        let frame: Vec<Complex<T>> = windowed_frame(
            signal,
            offset,
            window,
            nfft,
            norm_factor,
            zero,
        );
        let ghost cut = frame;
        let spectrum: Vec<Complex<T>> = fft(frame);
        assert(is_frame(signal@, offset as int, window@, nfft as int, norm_factor, zero, cut@));
        assert(call_ensures(*fft, (cut,), spectrum));
        assert(is_spectrum(
            signal@,
            t * hop,
            window@,
            nfft as int,
            norm_factor,
            zero,
            *fft,
            spectrum,
        ));
        let ghost before = grid@;

        let mut f: usize = 0;
        while f < freq_bins
            invariant
                f <= freq_bins,
                t < num_frames,
                freq_bins == nfft / 2 + 1,
                nfft >= 1,
                spectrum@.len() == nfft,
                grid@.len() == freq_bins * num_frames,
                before.len() == grid@.len(),
                freq_bins * num_frames <= usize::MAX,
                forall|g: int, u: int|
                    0 <= g < freq_bins && 0 <= u < t ==> grid@[#[trigger] bin_at(
                        g,
                        u,
                        num_frames as int,
                    )] == before[bin_at(g, u, num_frames as int)],
                forall|g: int|
                    0 <= g < f ==> grid@[#[trigger] bin_at(g, t as int, num_frames as int)]
                        == spectrum@[g],
            decreases freq_bins - f,
        {
            proof {
                lemma_bin_in_grid(f as int, t as int, freq_bins as int, num_frames as int);
                assert forall|g: int, u: int|
                    0 <= u <= t && (g, u) != (f as int, t as int) implies #[trigger] bin_at(
                    g,
                    u,
                    num_frames as int,
                ) != bin_at(f as int, t as int, num_frames as int) by {
                    law_bins_do_not_collide(g, u, f as int, t as int, num_frames as int);
                }
                assert forall|g: int, u: int|
                    0 <= g < freq_bins && 0 <= u <= t implies 0 <= #[trigger] bin_at(
                    g,
                    u,
                    num_frames as int,
                ) < grid@.len() by {
                    lemma_bin_in_grid(g, u, freq_bins as int, num_frames as int);
                }
                assert(0 <= f * num_frames + t < grid@.len());
            }
            assert(0 <= f * num_frames) by (nonlinear_arith)
                requires
                    f >= 0,
                    num_frames >= 0,
            ;
            grid.set(f * num_frames + t, spectrum[f]);
            f = f + 1;
        }
        proof {
            let earlier = spectra;
            spectra = earlier.push(spectrum);
            assert forall|g: int, u: int|
                0 <= g < freq_bins && 0 <= u < t + 1 implies grid@[#[trigger] bin_at(
                g,
                u,
                num_frames as int,
            )] == spectra[u]@[g] by {
                if u < t {
                    assert(grid@[bin_at(g, u, num_frames as int)] == before[bin_at(
                        g,
                        u,
                        num_frames as int,
                    )]);
                    assert(spectra[u] == earlier[u]);
                }
            }
        }
        t = t + 1;
    }
    assert(are_spectra(
        signal@,
        nfft as int,
        hop as int,
        window@,
        norm_factor,
        zero,
        *fft,
        spectra,
    ));
    assert(shows_spectra(spectra, nfft as int, grid@));
    grid
}

} // verus!
