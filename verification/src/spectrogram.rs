//! The spectrogram of a stereo signal in the layout that HTDemucs takes.
use core::ops::Mul;

use vstd::arithmetic::div_mod::lemma_fundamental_div_mod_converse;
use vstd::prelude::*;

use crate::reflect::reflect_pad;
use crate::stft::{stft_frames, Complex, HOP_LENGTH, NFFT};

verus! {

broadcast use vstd::seq_lib::group_seq_properties;

/// The spectrogram of a stereo signal.
pub struct MagnitudeSpectrogram<T> {
    /// Four planes of `freq_bins` rows and `time_frames` columns each: the
    /// real and the imaginary part of the left channel, then of the right.
    pub data: Vec<T>,
    pub freq_bins: usize,
    pub time_frames: usize,
}

/// The number of hops that cover `n` samples.
pub open spec fn hop_count(n: int) -> int {
    (n + HOP_LENGTH - 1) / HOP_LENGTH as int
}

/// The margin that is mirrored in front of a signal: one and a half hops.
pub open spec fn front_margin() -> int {
    HOP_LENGTH as int / 2 * 3
}

/// The margin that is mirrored behind a signal of `n` samples: as much as in
/// front, and what fills its last hop.
pub open spec fn back_margin(n: int) -> int {
    front_margin() + hop_count(n) * HOP_LENGTH - n
}

/// A channel as it is analysed: mirrored by the margins of a signal of `n`
/// samples, and by half a frame more on either side.
pub open spec fn analysed<T>(channel: Seq<T>, n: int) -> Seq<T> {
    crate::reflect::reflect_padded(
        crate::reflect::reflect_padded(channel, front_margin(), back_margin(n)),
        NFFT as int / 2,
        NFFT as int / 2,
    )
}

/// The number of frames of an analysed channel of `len` samples.
pub open spec fn analysed_frames(len: int, n: int) -> int {
    crate::stft::frame_count(
        front_margin() + len + back_margin(n) + NFFT,
        NFFT as int,
        HOP_LENGTH as int,
    )
}

/// The value of bin `f` in column `t` of a plane: column `t` shows frame
/// `t + 2`, and `zero` where there is no such frame.
pub open spec fn shown_bin<T>(
    grid: Seq<Complex<T>>,
    frames: int,
    f: int,
    t: int,
    zero: T,
) -> Complex<T> {
    if t + 2 < frames {
        grid[crate::stft::bin_at(f, t + 2, frames)]
    } else {
        Complex { re: zero, im: zero }
    }
}

/// The plane of the real parts of `grid`, row by row.
pub open spec fn real_plane<T>(
    grid: Seq<Complex<T>>,
    frames: int,
    columns: int,
    zero: T,
) -> Seq<T> {
    Seq::new(
        (NFFT as int / 2 * columns) as nat,
        |k: int| shown_bin(grid, frames, k / columns, k % columns, zero).re,
    )
}

/// The plane of the imaginary parts of `grid`, row by row.
pub open spec fn imaginary_plane<T>(
    grid: Seq<Complex<T>>,
    frames: int,
    columns: int,
    zero: T,
) -> Seq<T> {
    Seq::new(
        (NFFT as int / 2 * columns) as nat,
        |k: int| shown_bin(grid, frames, k / columns, k % columns, zero).im,
    )
}

/// The four planes of a stereo signal whose channels have the transforms
/// `left` and `right`.
pub open spec fn planes<T>(
    left: Seq<Complex<T>>,
    left_frames: int,
    right: Seq<Complex<T>>,
    right_frames: int,
    columns: int,
    zero: T,
) -> Seq<T> {
    real_plane(left, left_frames, columns, zero) + imaginary_plane(left, left_frames, columns, zero)
        + real_plane(right, right_frames, columns, zero) + imaginary_plane(
        right,
        right_frames,
        columns,
        zero,
    )
}

/// Whether `grid` is the transform of a channel that is mirrored by the margins
/// of a signal of `n` samples.
pub open spec fn is_channel_stft<
    T: Copy + Mul<Output = T>,
    F: Fn(Vec<Complex<T>>) -> Vec<Complex<T>>,
>(
    channel: Seq<T>,
    n: int,
    window: Seq<T>,
    norm: T,
    zero: T,
    fft: F,
    grid: Seq<Complex<T>>,
) -> bool {
    crate::stft::is_stft(
        analysed(channel, n),
        NFFT as int,
        HOP_LENGTH as int,
        window,
        norm,
        zero,
        fft,
        grid,
    )
}

/// Whether `out` is the spectrogram of a stereo signal, both channels of which
/// are mirrored by the margins of the left one.
pub open spec fn is_spectrogram<
    T: Copy + Mul<Output = T>,
    F: Fn(Vec<Complex<T>>) -> Vec<Complex<T>>,
>(
    left: Seq<T>,
    right: Seq<T>,
    window: Seq<T>,
    norm: T,
    zero: T,
    fft: F,
    out: MagnitudeSpectrogram<T>,
) -> bool {
    let n = left.len() as int;
    &&& out.freq_bins == NFFT as int / 2
    &&& out.time_frames == hop_count(n)
    &&& exists|l: Seq<Complex<T>>, r: Seq<Complex<T>>|
        {
            &&& #[trigger] is_channel_stft(left, n, window, norm, zero, fft, l)
            &&& #[trigger] is_channel_stft(right, n, window, norm, zero, fft, r)
            &&& out.data@ == planes(
                l,
                analysed_frames(n, n),
                r,
                analysed_frames(right.len() as int, n),
                hop_count(n),
                zero,
            )
        }
}

/// Whether a channel of `len` samples can be analysed with the margins of a
/// signal of `n` samples: it has something to mirror, and what is made of it
/// can be addressed.
pub open spec fn can_analyse(len: int, n: int) -> bool {
    &&& len >= 2
    &&& front_margin() + len + back_margin(n) + NFFT <= isize::MAX
    &&& (NFFT as int / 2 + 1) * analysed_frames(len, n) <= usize::MAX
}

/// A signal of `n` samples fills its hops but for less than one hop.
pub proof fn law_margins(n: int)
    ensures
        HOP_LENGTH == 1024,
        front_margin() == 1536,
        n <= hop_count(n) * HOP_LENGTH < n + HOP_LENGTH,
        back_margin(n) == 1536 + hop_count(n) * 1024 - n,
{
    assert(HOP_LENGTH == 1024);
}

/// A signal of `n` samples, analysed, has four frames more than hops.
pub proof fn law_four_frames_more_than_hops(n: int)
    requires
        n >= 1,
    ensures
        analysed_frames(n, n) == hop_count(n) + 4,
{
    let hops = hop_count(n);
    let len = front_margin() + n + back_margin(n) + NFFT;
    assert(HOP_LENGTH == 1024);
    assert(len - NFFT == (hops + 3) * HOP_LENGTH);
    lemma_fundamental_div_mod_converse(len - NFFT, HOP_LENGTH as int, hops + 3, 0);
}

/// The frames that the spectrogram shows of a channel whose margins are its
/// own all exist: none of its columns is filled with zeros.
pub proof fn law_no_column_is_empty(n: int, t: int)
    requires
        n >= 1,
        0 <= t < hop_count(n),
    ensures
        t + 2 < analysed_frames(n, n),
{
    law_four_frames_more_than_hops(n);
}

/// Channels of up to two hundred million samples can be analysed on any
/// machine.
pub proof fn law_ordinary_channels_can_be_analysed(len: int, n: int)
    requires
        2 <= len <= 200_000_000,
        2 <= n <= 200_000_000,
    ensures
        can_analyse(len, n),
        4 * (NFFT as int / 2 * hop_count(n)) <= usize::MAX,
{
    law_margins(n);
    let total = front_margin() + len + back_margin(n) + NFFT;
    assert(total <= isize::MAX);
    assert(analysed_frames(len, n) <= 200_000);
    assert(2049 * analysed_frames(len, n) <= usize::MAX);
}

proof fn lemma_cell(f: int, t: int, columns: int)
    requires
        0 <= t < columns,
    ensures
        (f * columns + t) / columns == f,
        (f * columns + t) % columns == t,
{
    lemma_fundamental_div_mod_converse(f * columns + t, columns, f, t);
}

/// Where the spectrogram shows bin `f` of frame `t + 2`: the planes stand one
/// after the other, in the order left real, left imaginary, right real, right
/// imaginary.
pub proof fn law_plane_order<T>(
    left: Seq<Complex<T>>,
    left_frames: int,
    right: Seq<Complex<T>>,
    right_frames: int,
    columns: int,
    zero: T,
    f: int,
    t: int,
)
    requires
        0 <= f < NFFT as int / 2,
        0 <= t < columns,
    ensures
        ({
            let data = planes(left, left_frames, right, right_frames, columns, zero);
            let plane = NFFT as int / 2 * columns;
            let at = f * columns + t;
            &&& data.len() == 4 * plane
            &&& data[at] == shown_bin(left, left_frames, f, t, zero).re
            &&& data[plane + at] == shown_bin(left, left_frames, f, t, zero).im
            &&& data[2 * plane + at] == shown_bin(right, right_frames, f, t, zero).re
            &&& data[3 * plane + at] == shown_bin(right, right_frames, f, t, zero).im
        }),
{
    lemma_cell(f, t, columns);
    assert(0 <= f * columns + t < NFFT as int / 2 * columns) by (nonlinear_arith)
        requires
            0 <= f < NFFT as int / 2,
            0 <= t < columns,
    ;
}

/// Swapping the channels swaps the halves of the planes.
pub proof fn law_swapped_channels_swap_planes<T>(
    left: Seq<Complex<T>>,
    left_frames: int,
    right: Seq<Complex<T>>,
    right_frames: int,
    columns: int,
    zero: T,
)
    requires
        columns >= 0,
    ensures
        ({
            let data = planes(left, left_frames, right, right_frames, columns, zero);
            let half = data.len() as int / 2;
            planes(right, right_frames, left, left_frames, columns, zero) == data.skip(half)
                + data.take(half)
        }),
{
    let data = planes(left, left_frames, right, right_frames, columns, zero);
    let swapped = planes(right, right_frames, left, left_frames, columns, zero);
    let half = data.len() as int / 2;
    let plane = NFFT as int / 2 * columns;
    assert(0 <= plane) by (nonlinear_arith)
        requires
            plane == NFFT as int / 2 * columns,
            columns >= 0,
            NFFT == 4096,
    ;
    assert(half == 2 * plane);
    let l = real_plane(left, left_frames, columns, zero) + imaginary_plane(
        left,
        left_frames,
        columns,
        zero,
    );
    let r = real_plane(right, right_frames, columns, zero) + imaginary_plane(
        right,
        right_frames,
        columns,
        zero,
    );
    assert(data =~= l + r);
    assert(swapped =~= r + l);
    assert(data.take(half) =~= l);
    assert(data.skip(half) =~= r);
}

/// The transforms of the two channels behind a spectrogram.
proof fn lemma_grids<T: Copy + Mul<Output = T>, F: Fn(Vec<Complex<T>>) -> Vec<Complex<T>>>(
    left: Seq<T>,
    right: Seq<T>,
    window: Seq<T>,
    norm: T,
    zero: T,
    fft: F,
    out: MagnitudeSpectrogram<T>,
) -> (grids: (Seq<Complex<T>>, Seq<Complex<T>>))
    requires
        is_spectrogram(left, right, window, norm, zero, fft, out),
    ensures
        ({
            let n = left.len() as int;
            &&& is_channel_stft(left, n, window, norm, zero, fft, grids.0)
            &&& is_channel_stft(right, n, window, norm, zero, fft, grids.1)
            &&& out.data@ == planes(
                grids.0,
                analysed_frames(n, n),
                grids.1,
                analysed_frames(right.len() as int, n),
                hop_count(n),
                zero,
            )
        }),
{
    let n = left.len() as int;
    let (l, r) = choose|l: Seq<Complex<T>>, r: Seq<Complex<T>>|
        {
            &&& #[trigger] is_channel_stft(left, n, window, norm, zero, fft, l)
            &&& #[trigger] is_channel_stft(right, n, window, norm, zero, fft, r)
            &&& out.data@ == planes(
                l,
                analysed_frames(n, n),
                r,
                analysed_frames(right.len() as int, n),
                hop_count(n),
                zero,
            )
        };
    (l, r)
}

proof fn lemma_one_grid<T: Copy + Mul<Output = T>, F: Fn(Vec<Complex<T>>) -> Vec<Complex<T>>>(
    channel: Seq<T>,
    n: int,
    window: Seq<T>,
    norm: T,
    zero: T,
    fft: F,
    a: Seq<Complex<T>>,
    b: Seq<Complex<T>>,
)
    requires
        crate::stft::is_function::<T, F>(fft, NFFT as int),
        is_channel_stft(channel, n, window, norm, zero, fft, a),
        is_channel_stft(channel, n, window, norm, zero, fft, b),
    ensures
        a == b,
{
    crate::stft::law_signal_has_one_stft(
        analysed(channel, n),
        NFFT as int,
        HOP_LENGTH as int,
        window,
        norm,
        zero,
        fft,
        a,
        b,
    );
}

proof fn lemma_analysed_sample<T>(channel: Seq<T>, n: int, k: int)
    requires
        n >= 1,
        channel.len() >= 1,
        0 <= k < channel.len() + 3072 + 1024 * hop_count(n) - n + 4096,
    ensures
        ({
            let padded = channel.len() + 3072 + 1024 * hop_count(n) - n;
            &&& analysed(channel, n).len() == padded + 4096
            &&& analysed(channel, n)[k] == channel[crate::reflect::reflected(
                crate::reflect::reflected(k - 2048, padded) - 1536,
                channel.len() as int,
            )]
        }),
{
    law_margins(n);
    let padded = channel.len() + 3072 + 1024 * hop_count(n) - n;
    crate::reflect::law_within_signal(k - 2048, padded);
}

/// What every cell of a spectrogram is made of, for either channel (`c` zero or
/// one): column `t` shows what the transform gave for 4096 values, each of them
/// a sample of that channel times the window's weight times the factor. Value
/// `i` is made of the sample that stands `1024 * t + i` places behind the start
/// of the margins, by mirroring about the ends of the margins and then about
/// the ends of the channel. The real parts stand in front of the imaginary
/// ones, and where a channel has no such frame there is `zero`.
pub proof fn law_cells_show_transformed_samples<
    T: Copy + Mul<Output = T>,
    F: Fn(Vec<Complex<T>>) -> Vec<Complex<T>>,
>(
    left: Seq<T>,
    right: Seq<T>,
    window: Seq<T>,
    norm: T,
    zero: T,
    fft: F,
    out: MagnitudeSpectrogram<T>,
    c: int,
    t: int,
)
    requires
        left.len() >= 1,
        right.len() >= 1,
        is_spectrogram(left, right, window, norm, zero, fft, out),
        0 <= c < 2,
        0 <= t < out.time_frames,
    ensures
        ({
            let n = left.len() as int;
            let cols = out.time_frames as int;
            let channel = if c == 0 {
                left
            } else {
                right
            };
            let len = channel.len() as int;
            let padded = 1536 + len + (1536 + 1024 * cols - n);
            &&& out.freq_bins == 2048
            &&& n <= 1024 * cols < n + 1024
            &&& out.data@.len() == 4 * (2048 * cols)
            &&& 1024 * (t + 2) <= padded ==> exists|v: Vec<Complex<T>>, o: Vec<Complex<T>>|
                {
                    &&& v@.len() == 4096
                    &&& forall|i: int|
                        0 <= i < 4096 ==> {
                            &&& (#[trigger] v@[i]).im == zero
                            &&& exists|x: T, m: T|
                                {
                                    &&& x == channel[crate::reflect::reflected(
                                        crate::reflect::reflected(1024 * t + i, padded) - 1536,
                                        len,
                                    )]
                                    &&& #[trigger] call_ensures(T::mul, (x, window[i]), m)
                                    &&& call_ensures(T::mul, (m, norm), v@[i].re)
                                }
                        }
                    &&& #[trigger] call_ensures(fft, (v,), o)
                    &&& forall|f: int|
                        0 <= f < 2048 ==> {
                            &&& out.data@[2 * c * (2048 * cols) + f * cols + t] == (
                            #[trigger] o@[f]).re
                            &&& out.data@[(2 * c + 1) * (2048 * cols) + f * cols + t] == o@[f].im
                        }
                }
            &&& 1024 * (t + 2) > padded ==> forall|f: int|
                #![trigger f * cols]
                0 <= f < 2048 ==> {
                    &&& out.data@[2 * c * (2048 * cols) + f * cols + t] == zero
                    &&& out.data@[(2 * c + 1) * (2048 * cols) + f * cols + t] == zero
                }
        }),
{
    let n = left.len() as int;
    let cols = hop_count(n);
    let channel = if c == 0 {
        left
    } else {
        right
    };
    let len = channel.len() as int;
    let padded = 1536 + len + (1536 + 1024 * cols - n);
    let (l, r) = lemma_grids(left, right, window, norm, zero, fft, out);
    let grid = if c == 0 {
        l
    } else {
        r
    };
    let left_frames = analysed_frames(n, n);
    let right_frames = analysed_frames(right.len() as int, n);
    let frames = analysed_frames(len, n);
    law_margins(n);
    assert(frames == padded / 1024 + 1);
    assert forall|f: int| 0 <= f < 2048 implies {
        let shown = shown_bin(grid, frames, f, t, zero);
        &&& out.data@[2 * c * (2048 * cols) + #[trigger] (f * cols) + t] == shown.re
        &&& out.data@[(2 * c + 1) * (2048 * cols) + f * cols + t] == shown.im
    } by {
        law_plane_order(l, left_frames, r, right_frames, cols, zero, f, t);
        let plane = 2048 * cols;
        assert(c == 0 ==> 2 * c * plane == 0 && (2 * c + 1) * plane == plane) by (nonlinear_arith);
        assert(c == 1 ==> 2 * c * plane == 2 * plane && (2 * c + 1) * plane == 3 * plane)
            by (nonlinear_arith);
    }
    if 1024 * (t + 2) <= padded {
        let signal = analysed(channel, n);
        lemma_analysed_sample(channel, n, 0);
        crate::stft::law_grid_shows_transformed_samples(
            signal,
            4096,
            1024,
            window,
            norm,
            zero,
            fft,
            grid,
            frames,
            t + 2,
        );
        let (v, o) = choose|v: Vec<Complex<T>>, o: Vec<Complex<T>>|
            {
                &&& v@.len() == 4096
                &&& forall|i: int|
                    0 <= i < 4096 ==> {
                        &&& (#[trigger] v@[i]).im == zero
                        &&& exists|x: T, m: T|
                            {
                                &&& x == if (t + 2) * 1024 + i < signal.len() {
                                    signal[(t + 2) * 1024 + i]
                                } else {
                                    zero
                                }
                                &&& #[trigger] call_ensures(T::mul, (x, window[i]), m)
                                &&& call_ensures(T::mul, (m, norm), v@[i].re)
                            }
                    }
                &&& #[trigger] call_ensures(fft, (v,), o)
                &&& forall|f: int|
                    0 <= f <= 2048 ==> grid[f * frames + (t + 2)] == #[trigger] o@[f]
            };
        assert forall|i: int| 0 <= i < 4096 implies {
            &&& (#[trigger] v@[i]).im == zero
            &&& exists|x: T, m: T|
                {
                    &&& x == channel[crate::reflect::reflected(
                        crate::reflect::reflected(1024 * t + i, padded) - 1536,
                        len,
                    )]
                    &&& #[trigger] call_ensures(T::mul, (x, window[i]), m)
                    &&& call_ensures(T::mul, (m, norm), v@[i].re)
                }
        } by {
            let k = (t + 2) * 1024 + i;
            lemma_analysed_sample(channel, n, k);
            assert(k - 2048 == 1024 * t + i);
            assert(v@[i].im == zero);
            let (x, m) = choose|x: T, m: T|
                {
                    &&& x == if (t + 2) * 1024 + i < signal.len() {
                        signal[(t + 2) * 1024 + i]
                    } else {
                        zero
                    }
                    &&& #[trigger] call_ensures(T::mul, (x, window[i]), m)
                    &&& call_ensures(T::mul, (m, norm), v@[i].re)
                };
            assert(call_ensures(T::mul, (x, window[i]), m));
            assert(x == signal[k]);
        }
        assert forall|f: int| 0 <= f < 2048 implies {
            &&& out.data@[2 * c * (2048 * cols) + f * cols + t] == (#[trigger] o@[f]).re
            &&& out.data@[(2 * c + 1) * (2048 * cols) + f * cols + t] == o@[f].im
        } by {
            let shown = shown_bin(grid, frames, f, t, zero);
            assert(out.data@[2 * c * (2048 * cols) + f * cols + t] == shown.re);
            assert(grid[f * frames + (t + 2)] == o@[f]);
        }
    }
}

/// Swapping two channels of one length swaps the halves of their spectrogram,
/// where product and transform are functions of their arguments.
pub proof fn law_swapped_channels_swap_halves<
    T: Copy + Mul<Output = T>,
    F: Fn(Vec<Complex<T>>) -> Vec<Complex<T>>,
>(
    left: Seq<T>,
    right: Seq<T>,
    window: Seq<T>,
    norm: T,
    zero: T,
    fft: F,
    a: MagnitudeSpectrogram<T>,
    b: MagnitudeSpectrogram<T>,
)
    requires
        left.len() == right.len(),
        crate::stft::is_function::<T, F>(fft, NFFT as int),
        is_spectrogram(left, right, window, norm, zero, fft, a),
        is_spectrogram(right, left, window, norm, zero, fft, b),
    ensures
        ({
            let half = a.data@.len() as int / 2;
            b.data@ == a.data@.skip(half) + a.data@.take(half)
        }),
{
    let n = left.len() as int;
    let frames = analysed_frames(n, n);
    let (al, ar) = lemma_grids(left, right, window, norm, zero, fft, a);
    let (bl, br) = lemma_grids(right, left, window, norm, zero, fft, b);
    lemma_one_grid(left, n, window, norm, zero, fft, al, br);
    lemma_one_grid(right, n, window, norm, zero, fft, ar, bl);
    law_margins(n);
    law_swapped_channels_swap_planes(al, frames, ar, frames, hop_count(n), zero);
}

/// The first half of a spectrogram is fixed by the left channel alone, whatever
/// the right one is, where product and transform are functions of their
/// arguments.
pub proof fn law_left_half_is_of_left_channel<
    T: Copy + Mul<Output = T>,
    F: Fn(Vec<Complex<T>>) -> Vec<Complex<T>>,
>(
    left: Seq<T>,
    right: Seq<T>,
    other: Seq<T>,
    window: Seq<T>,
    norm: T,
    zero: T,
    fft: F,
    a: MagnitudeSpectrogram<T>,
    d: MagnitudeSpectrogram<T>,
)
    requires
        crate::stft::is_function::<T, F>(fft, NFFT as int),
        is_spectrogram(left, right, window, norm, zero, fft, a),
        is_spectrogram(left, other, window, norm, zero, fft, d),
    ensures
        ({
            let half = a.data@.len() as int / 2;
            &&& d.data@.len() == a.data@.len()
            &&& d.data@.take(half) == a.data@.take(half)
        }),
{
    let n = left.len() as int;
    let (al, ar) = lemma_grids(left, right, window, norm, zero, fft, a);
    let (dl, dr) = lemma_grids(left, other, window, norm, zero, fft, d);
    lemma_one_grid(left, n, window, norm, zero, fft, al, dl);
    law_margins(n);
    let half = a.data@.len() as int / 2;
    assert(d.data@.take(half) =~= a.data@.take(half));
}

/// The second half of a spectrogram is fixed by the right channel and the
/// number of samples of the left one, which gives the margins, where product
/// and transform are functions of their arguments.
pub proof fn law_right_half_is_of_right_channel<
    T: Copy + Mul<Output = T>,
    F: Fn(Vec<Complex<T>>) -> Vec<Complex<T>>,
>(
    left: Seq<T>,
    other: Seq<T>,
    right: Seq<T>,
    window: Seq<T>,
    norm: T,
    zero: T,
    fft: F,
    a: MagnitudeSpectrogram<T>,
    d: MagnitudeSpectrogram<T>,
)
    requires
        left.len() == other.len(),
        crate::stft::is_function::<T, F>(fft, NFFT as int),
        is_spectrogram(left, right, window, norm, zero, fft, a),
        is_spectrogram(other, right, window, norm, zero, fft, d),
    ensures
        ({
            let half = a.data@.len() as int / 2;
            &&& d.data@.len() == a.data@.len()
            &&& d.data@.skip(half) == a.data@.skip(half)
        }),
{
    let n = left.len() as int;
    let (al, ar) = lemma_grids(left, right, window, norm, zero, fft, a);
    let (dl, dr) = lemma_grids(other, right, window, norm, zero, fft, d);
    lemma_one_grid(right, n, window, norm, zero, fft, ar, dr);
    law_margins(n);
    let half = a.data@.len() as int / 2;
    assert(d.data@.skip(half) =~= a.data@.skip(half));
}

/// Reads the frames that are shown out of `grid`, as the plane of the real
/// parts and that of the imaginary parts.
fn split_planes<T: Copy>(
    grid: &Vec<Complex<T>>,
    frames: usize,
    columns: usize,
    zero: T,
) -> (out: (Vec<T>, Vec<T>))
    requires
        grid@.len() == (NFFT as int / 2 + 1) * frames,
        columns + 2 <= usize::MAX,
        NFFT as int / 2 * columns <= usize::MAX,
    ensures
        out.0@ == real_plane(grid@, frames as int, columns as int, zero),
        out.1@ == imaginary_plane(grid@, frames as int, columns as int, zero),
{
    let freq_bins: usize = NFFT / 2;
    let ghost all_re = real_plane(grid@, frames as int, columns as int, zero);
    let ghost all_im = imaginary_plane(grid@, frames as int, columns as int, zero);
    let mut re: Vec<T> = Vec::with_capacity(freq_bins * columns);
    let mut im: Vec<T> = Vec::with_capacity(freq_bins * columns);
    let mut f: usize = 0;
    while f < freq_bins
        invariant
            f <= freq_bins,
            freq_bins == NFFT as int / 2,
            grid@.len() == (NFFT as int / 2 + 1) * frames,
            columns + 2 <= usize::MAX,
            all_re == real_plane(grid@, frames as int, columns as int, zero),
            all_im == imaginary_plane(grid@, frames as int, columns as int, zero),
            re@ == all_re.take(f * columns),
            im@ == all_im.take(f * columns),
        decreases freq_bins - f,
    {
        let mut t: usize = 0;
        while t < columns
            invariant
                t <= columns,
                f < freq_bins,
                freq_bins == NFFT as int / 2,
                grid@.len() == (NFFT as int / 2 + 1) * frames,
                columns + 2 <= usize::MAX,
                all_re == real_plane(grid@, frames as int, columns as int, zero),
                all_im == imaginary_plane(grid@, frames as int, columns as int, zero),
                re@ == all_re.take(f * columns + t),
                im@ == all_im.take(f * columns + t),
            decreases columns - t,
        {
            let ghost at = f * columns + t;
            assert(0 <= at < all_re.len()) by (nonlinear_arith)
                requires
                    at == f * columns + t,
                    f < freq_bins,
                    t < columns,
                    all_re.len() == freq_bins * columns,
            ;
            proof {
                lemma_cell(f as int, t as int, columns as int);
            }
            let src_t: usize = t + 2;
            if src_t < frames {
                assert(0 <= f * frames) by (nonlinear_arith)
                    requires
                        f >= 0,
                        frames >= 0,
                ;
                assert(f * frames + src_t < grid@.len()) by (nonlinear_arith)
                    requires
                        f < freq_bins,
                        src_t < frames,
                        grid@.len() == (freq_bins + 1) * frames,
                ;
                assert(grid@.len() <= usize::MAX) by {
                    assert(grid@.len() == grid.len());
                }
                let bin: Complex<T> = grid[f * frames + src_t];
                re.push(bin.re);
                im.push(bin.im);
            } else {
                re.push(zero);
                im.push(zero);
            }
            assert(re@ =~= all_re.take(at + 1));
            assert(im@ =~= all_im.take(at + 1));
            t = t + 1;
        }
        assert(f * columns + columns == (f + 1) * columns) by (nonlinear_arith);
        f = f + 1;
    }
    assert(re@ =~= all_re);
    assert(im@ =~= all_im);
    (re, im)
}

/// Analyses one channel with the margins given and reads off its planes.
fn channel_planes<
    T: Copy + Mul<Output = T>,
    F: Fn(Vec<Complex<T>>) -> Vec<Complex<T>>,
>(
    channel: &[T],
    Ghost(n): Ghost<int>,
    pad: usize,
    right_pad: usize,
    columns: usize,
    window: &[T],
    norm_factor: T,
    zero: T,
    fft: &F,
) -> (out: ((Vec<T>, Vec<T>), Ghost<Seq<Complex<T>>>))
    requires
        can_analyse(channel@.len() as int, n),
        n >= 1,
        pad == front_margin(),
        right_pad == back_margin(n),
        columns + 2 <= usize::MAX,
        NFFT as int / 2 * columns <= usize::MAX,
        NFFT <= window@.len(),
        crate::stft::can_transform::<T, F>(*fft, NFFT as int),
    ensures
        is_channel_stft(channel@, n, window@, norm_factor, zero, *fft, out.1@),
        out.0.0@ == real_plane(
            out.1@,
            analysed_frames(channel@.len() as int, n),
            columns as int,
            zero,
        ),
        out.0.1@ == imaginary_plane(
            out.1@,
            analysed_frames(channel@.len() as int, n),
            columns as int,
            zero,
        ),
{
    let ghost frames = analysed_frames(channel@.len() as int, n);
    let padded: Vec<T> = reflect_pad(channel, pad, right_pad);
    let center_pad: usize = NFFT / 2;
    let centered: Vec<T> = reflect_pad(padded.as_slice(), center_pad, center_pad);
    assert(centered@ == analysed(channel@, n));
    let grid: Vec<Complex<T>> = stft_frames(
        centered.as_slice(),
        NFFT,
        HOP_LENGTH,
        window,
        norm_factor,
        zero,
        fft,
    );
    let freq_bins_full: usize = NFFT / 2 + 1;
    let total_time_frames: usize = grid.len() / freq_bins_full;
    assert(grid@.len() == freq_bins_full * frames);
    proof {
        assert(freq_bins_full * frames == frames * freq_bins_full) by (nonlinear_arith);
        lemma_fundamental_div_mod_converse(
            grid@.len() as int,
            freq_bins_full as int,
            frames,
            0,
        );
    }
    let planes = split_planes(&grid, total_time_frames, columns, zero);
    (planes, Ghost(grid@))
}

/// Computes the spectrogram of a stereo signal: both channels are mirrored by
/// the margins of the left one and transformed with `fft` under `window`.
///
/// `window` is the analysis window and `norm_factor` what every windowed
/// sample is multiplied by; `zero` stands where there is no sample.
pub fn compute_magnitude_spectrogram<
    T: Copy + Mul<Output = T>,
    F: Fn(Vec<Complex<T>>) -> Vec<Complex<T>>,
>(
    left: &[T],
    right: &[T],
    window: &[T],
    norm_factor: T,
    zero: T,
    fft: &F,
) -> (out: MagnitudeSpectrogram<T>)
    requires
        can_analyse(left@.len() as int, left@.len() as int),
        can_analyse(right@.len() as int, left@.len() as int),
        4 * (NFFT as int / 2 * hop_count(left@.len() as int)) <= usize::MAX,
        NFFT <= window@.len(),
        crate::stft::can_transform::<T, F>(*fft, NFFT as int),
    ensures
        is_spectrogram(left@, right@, window@, norm_factor, zero, *fft, out),
{
    let n: usize = left.len();
    let hl: usize = HOP_LENGTH;
    let le: usize = (n + hl - 1) / hl;
    let pad: usize = hl / 2 * 3;
    let right_pad: usize = pad + le * hl - n;

    let (left_planes, Ghost(l)) = channel_planes(
        left,
        Ghost(n as int),
        pad,
        right_pad,
        le,
        window,
        norm_factor,
        zero,
        fft,
    );
    let (right_planes, Ghost(r)) = channel_planes(
        right,
        Ghost(n as int),
        pad,
        right_pad,
        le,
        window,
        norm_factor,
        zero,
        fft,
    );
    let (mut data, mut left_im) = left_planes;
    let (mut right_re, mut right_im) = right_planes;
    data.append(&mut left_im);
    data.append(&mut right_re);
    data.append(&mut right_im);
    assert(data@ == planes(
        l,
        analysed_frames(left@.len() as int, n as int),
        r,
        analysed_frames(right@.len() as int, n as int),
        le as int,
        zero,
    ));
    MagnitudeSpectrogram { data, freq_bins: NFFT / 2, time_frames: le }
}

} // verus!
