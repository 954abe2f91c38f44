//! The two programs that turn audio into the model's complex spectrogram, its
//! real and imaginary parts packed as channels, and back.
use vstd::arithmetic::div_mod::lemma_fundamental_div_mod_converse;
use vstd::prelude::*;

use crate::stft::{HOP_LENGTH, NFFT};
use crate::tensor::{Op, StftOptions, TensorOp};

verus! {

/// The options of both transforms.
pub open spec fn model_options() -> StftOptions {
    StftOptions {
        n_fft: NFFT,
        hop_length: HOP_LENGTH,
        win_length: NFFT,
        center: true,
        onesided: true,
    }
}

/// Puts the bins' axis behind the frames' axis, or back, and the parts' axis
/// in the other one's place.
pub open spec fn swap_axes() -> Seq<int> {
    seq![0int, 1, 4, 3, 2]
}

/// The operations before the transform: the samples are mirrored by their
/// margins and every channel becomes a row of its own.
pub open spec fn analysis_head(batch: int, channels: int, t: int) -> Seq<Op> {
    let pad = crate::spectrogram::front_margin();
    let right_pad = crate::spectrogram::back_margin(t);
    Seq::<Op>::empty().push(
        Op::PadReflect { before: pad, after: right_pad },
    ).push(
        Op::Reshape { dims: seq![batch * channels, t + pad + right_pad] },
    )
}

/// The operations behind the transform: the highest bin and two frames at
/// either end are dropped, and the parts of each channel become channels.
pub open spec fn analysis_tail(batch: int, channels: int, t: int) -> Seq<Op> {
    let le = crate::spectrogram::hop_count(t);
    let bins = NFFT as int / 2;
    Seq::<Op>::empty().push(
        Op::DivideByRoot { of: NFFT as int },
    ).push(Op::Narrow { axis: 2, start: 0, len: bins }).push(
        Op::Narrow { axis: 1, start: 2, len: le },
    ).push(Op::Reshape { dims: seq![batch, channels, le, bins, 2] }).push(
        Op::Permute { axes: swap_axes() },
    ).push(Op::Reshape { dims: seq![batch, 2 * channels, bins, le] })
}

/// The whole analysis of audio of dimensions `[batch, channels, t]`.
pub open spec fn analysis(batch: int, channels: int, t: int) -> Seq<Op> {
    analysis_head(batch, channels, t).push(
        Op::Stft { options: model_options() },
    ) + analysis_tail(batch, channels, t)
}

/// The operations before the inverse transform: the parts are taken out of
/// the channels, and what the analysis dropped is filled with zeros.
pub open spec fn synthesis_head(batch: int, channels: int, frames: int) -> Seq<Op> {
    let bins = NFFT as int / 2;
    Seq::<Op>::empty().push(
        Op::Reshape { dims: seq![batch, channels, 2, bins, frames] },
    ).push(Op::Permute { axes: swap_axes() }).push(
        Op::PadZeros { axis: 3, before: 0, after: 1 },
    ).push(Op::PadZeros { axis: 2, before: 2, after: 2 }).push(
        Op::Reshape { dims: seq![batch * channels, frames + 4, bins + 1, 2] },
    )
}

/// The number of samples that the inverse transform gives for audio of
/// `length` samples, margins included.
pub open spec fn synthesised_len(length: int) -> int {
    HOP_LENGTH * crate::spectrogram::hop_count(length) + 2 * crate::spectrogram::front_margin()
}

/// The inverse transform gives whole hops: as many as the samples need, and
/// three for the margins.
pub proof fn law_synthesised_len(length: int)
    ensures
        synthesised_len(length) == 1024 * crate::spectrogram::hop_count(length) + 3072,
        synthesised_len(length) % 1024 == 0,
        length + 3072 <= synthesised_len(length) < length + 3072 + 1024,
        crate::spectrogram::front_margin() == 1536,
{
    let hops = crate::spectrogram::hop_count(length);
    crate::spectrogram::law_margins(length);
    assert(HOP_LENGTH * hops == 1024 * hops) by (nonlinear_arith)
        requires
            HOP_LENGTH == 1024,
    ;
    assert(hops * HOP_LENGTH == 1024 * hops) by (nonlinear_arith)
        requires
            HOP_LENGTH == 1024,
    ;
}

/// The operations behind the inverse transform: the rows become channels
/// again and lose their margins.
pub open spec fn synthesis_tail(batch: int, channels: int, length: int) -> Seq<Op> {
    Seq::<Op>::empty().push(
        Op::MultiplyByRoot { of: NFFT as int },
    ).push(
        Op::Reshape { dims: seq![batch, channels, synthesised_len(length)] },
    ).push(
        Op::Narrow {
            axis: 2,
            start: crate::spectrogram::front_margin(),
            len: length,
        },
    )
}

/// The whole synthesis of `length` samples from a spectrogram of dimensions
/// `[batch, 2 * channels, NFFT / 2, frames]`.
pub open spec fn synthesis(
    batch: int,
    channels: int,
    frames: int,
    length: int,
) -> Seq<Op> {
    synthesis_head(batch, channels, frames).push(
        Op::Istft { options: model_options(), length: synthesised_len(length) },
    ) + synthesis_tail(batch, channels, length)
}

proof fn lemma_shape_of_four(a: int, b: int, c: int, d: int, i: int, j: int, k: int, l: int)
    ensures
        crate::tensor::cells(seq![a, b, c, d]) == a * b * c * d,
        crate::tensor::flatten(seq![a, b, c, d], seq![i, j, k, l]) == ((i * b + j) * c + k) * d + l,
{
    let e = Seq::<int>::empty();
    assert(seq![a, b, c, d] =~= e.push(a).push(b).push(c).push(d));
    assert(seq![i, j, k, l] =~= e.push(i).push(j).push(k).push(l));
    crate::tensor::lemma_cells_push(e, a);
    crate::tensor::lemma_cells_push(e.push(a), b);
    crate::tensor::lemma_cells_push(e.push(a).push(b), c);
    crate::tensor::lemma_cells_push(e.push(a).push(b).push(c), d);
    crate::tensor::lemma_flatten_push(e, e, a, i);
    crate::tensor::lemma_flatten_push(e.push(a), e.push(i), b, j);
    crate::tensor::lemma_flatten_push(e.push(a).push(b), e.push(i).push(j), c, k);
    crate::tensor::lemma_flatten_push(
        e.push(a).push(b).push(c),
        e.push(i).push(j).push(k),
        d,
        l,
    );
}

proof fn lemma_shape_of_five(
    a: int,
    b: int,
    c: int,
    d: int,
    e: int,
    i: int,
    j: int,
    k: int,
    l: int,
    m: int,
)
    ensures
        crate::tensor::cells(seq![a, b, c, d, e]) == a * b * c * d * e,
        crate::tensor::flatten(seq![a, b, c, d, e], seq![i, j, k, l, m]) == (((i * b + j) * c + k)
            * d + l) * e + m,
{
    lemma_shape_of_four(a, b, c, d, i, j, k, l);
    assert(seq![a, b, c, d, e] =~= seq![a, b, c, d].push(e));
    assert(seq![i, j, k, l, m] =~= seq![i, j, k, l].push(m));
    crate::tensor::lemma_cells_push(seq![a, b, c, d], e);
    crate::tensor::lemma_flatten_push(seq![a, b, c, d], seq![i, j, k, l], e, m);
}

proof fn lemma_swap_axes(a: int, b: int, c: int, d: int, e: int)
    ensures
        crate::tensor::is_permutation(swap_axes(), 5),
        Seq::new(5, |k: int| seq![a, b, c, d, e][swap_axes()[k]]) == seq![a, b, e, d, c],
        Seq::new(5, |k: int| seq![a, b, c, d, e][swap_axes().index_of(k)]) == seq![a, b, e, d, c],
{
    let axes = swap_axes();
    assert(axes[0] == 0 && axes[1] == 1 && axes[2] == 4 && axes[3] == 3 && axes[4] == 2);
    assert(axes.index_of(0) == 0);
    assert(axes.index_of(1) == 1);
    assert(axes.index_of(4) == 2);
    assert(axes.index_of(3) == 3);
    assert(axes.index_of(2) == 4);
    assert(Seq::new(5, |k: int| seq![a, b, c, d, e][axes[k]]) =~= seq![a, b, e, d, c]);
    assert(Seq::new(5, |k: int| seq![a, b, c, d, e][axes.index_of(k)]) =~= seq![a, b, e, d, c]);
}

/// A row of the transform belongs to one channel of one item of the batch.
proof fn lemma_row_in_range(b: int, c: int, batch: int, channels: int)
    requires
        0 <= b < batch,
        0 <= c < channels,
    ensures
        0 <= b * channels + c < batch * channels,
{
    assert(b * channels + c < batch * channels) by (nonlinear_arith)
        requires
            0 <= b < batch,
            0 <= c < channels,
    ;
    assert(0 <= b * channels) by (nonlinear_arith)
        requires
            0 <= b,
            0 < channels,
    ;
}

/// The dimensions that the transform gives.
pub open spec fn transformed_dims(batch: int, channels: int, frames: int) -> Seq<int> {
    seq![batch * channels, frames, NFFT as int / 2 + 1, 2]
}

/// The dimensions of a packed spectrogram.
pub open spec fn packed_dims(batch: int, channels: int, frames: int) -> Seq<int> {
    seq![batch, 2 * channels, NFFT as int / 2, frames]
}

proof fn lemma_analysis_head(batch: int, channels: int, t: int)
    requires
        t > crate::spectrogram::back_margin(t),
    ensures
        crate::tensor::run_dims(
            analysis_head(batch, channels, t).push(Op::Stft { options: model_options() }),
            seq![batch, channels, t],
        ) == Some(transformed_dims(batch, channels, crate::spectrogram::hop_count(t) + 4)),
{
    let e = Seq::<Op>::empty();
    let pad = crate::spectrogram::front_margin();
    let right_pad = crate::spectrogram::back_margin(t);
    let le = crate::spectrogram::hop_count(t);
    let dims = seq![batch, channels, t];
    let new_t = t + pad + right_pad;
    let p1 = Op::PadReflect { before: pad, after: right_pad };
    let p2 = Op::Reshape { dims: seq![batch * channels, new_t] };
    crate::spectrogram::law_margins(t);
    crate::tensor::lemma_run_dims_push(e, p1, dims);
    assert(dims.update(2, pad + t + right_pad) =~= seq![batch, channels, new_t]);
    crate::tensor::lemma_run_dims_push(e.push(p1), p2, dims);
    let n = Seq::<int>::empty();
    assert(seq![batch, channels, new_t] =~= n.push(batch).push(channels).push(new_t));
    assert(seq![batch * channels, new_t] =~= n.push(batch * channels).push(new_t));
    crate::tensor::lemma_cells_push(n, batch);
    crate::tensor::lemma_cells_push(n.push(batch), channels);
    crate::tensor::lemma_cells_push(n.push(batch).push(channels), new_t);
    crate::tensor::lemma_cells_push(n, batch * channels);
    crate::tensor::lemma_cells_push(n.push(batch * channels), new_t);
    crate::tensor::lemma_run_dims_push(
        e.push(p1).push(p2),
        Op::Stft { options: model_options() },
        dims,
    );
    assert(NFFT == vstd::arithmetic::power2::pow2(12)) by {
        vstd::arithmetic::power2::lemma2_to64();
    }
    assert(new_t == (le + 3) * HOP_LENGTH);
    lemma_fundamental_div_mod_converse(new_t, HOP_LENGTH as int, le + 3, 0);
}

proof fn lemma_analysis_tail(batch: int, channels: int, t: int, shown: int)
    requires
        t >= 1,
        0 <= shown <= 6,
    ensures
        ({
            let le = crate::spectrogram::hop_count(t);
            let bins = NFFT as int / 2;
            let rows = batch * channels;
            let tail = analysis_tail(batch, channels, t);
            let from = transformed_dims(batch, channels, le + 4);
            crate::tensor::run_dims(tail.take(shown), from) == Some(
                if shown <= 1 {
                    from
                } else if shown == 2 {
                    seq![rows, le + 4, bins, 2]
                } else if shown == 3 {
                    seq![rows, le, bins, 2]
                } else if shown == 4 {
                    seq![batch, channels, le, bins, 2]
                } else if shown == 5 {
                    seq![batch, channels, 2, bins, le]
                } else {
                    packed_dims(batch, channels, le)
                },
            )
        }),
    decreases shown,
{
    let le = crate::spectrogram::hop_count(t);
    let bins = NFFT as int / 2;
    let rows = batch * channels;
    let tail = analysis_tail(batch, channels, t);
    let from = transformed_dims(batch, channels, le + 4);
    if shown == 0 {
        assert(tail.take(0) =~= Seq::<Op>::empty());
    } else {
        lemma_analysis_tail(batch, channels, t, shown - 1);
        assert(tail.take(shown) =~= tail.take(shown - 1).push(tail[shown - 1]));
        crate::tensor::lemma_run_dims_push(tail.take(shown - 1), tail[shown - 1], from);
        if shown == 2 {
            assert(from.update(2, bins) =~= seq![rows, le + 4, bins, 2]);
        } else if shown == 3 {
            assert(seq![rows, le + 4, bins, 2].update(1, le) =~= seq![rows, le, bins, 2]);
        } else if shown == 4 {
            lemma_shape_of_four(rows, le, bins, 2, 0, 0, 0, 0);
            lemma_shape_of_five(batch, channels, le, bins, 2, 0, 0, 0, 0, 0);
        } else if shown == 5 {
            lemma_swap_axes(batch, channels, le, bins, 2);
        } else if shown == 6 {
            lemma_shape_of_five(batch, channels, 2, bins, le, 0, 0, 0, 0, 0);
            lemma_shape_of_four(batch, 2 * channels, bins, le, 0, 0, 0, 0);
            assert(batch * channels * 2 == batch * (2 * channels)) by (nonlinear_arith);
        }
    }
}

/// The analysis can be applied to any audio that is longer than its margins,
/// and gives two channels for each, one bin less than half a frame has, and
/// one frame for every hop.
pub proof fn law_analysis_shape(batch: int, channels: int, t: int)
    requires
        t > crate::spectrogram::back_margin(t),
    ensures
        crate::tensor::run_dims(analysis(batch, channels, t), seq![batch, channels, t]) == Some(
            packed_dims(batch, channels, crate::spectrogram::hop_count(t)),
        ),
{
    let tail = analysis_tail(batch, channels, t);
    crate::spectrogram::law_margins(t);
    lemma_analysis_head(batch, channels, t);
    lemma_analysis_tail(batch, channels, t, 6);
    assert(tail.take(6) =~= tail);
    crate::tensor::law_programs_compose(
        analysis_head(batch, channels, t).push(Op::Stft { options: model_options() }),
        tail,
        seq![batch, channels, t],
    );
}

proof fn lemma_packed_place(
    b: int,
    c: int,
    part: int,
    f: int,
    t: int,
    batch: int,
    channels: int,
    frames: int,
)
    requires
        0 <= b < batch,
        0 <= c < channels,
        0 <= part < 2,
        0 <= f < NFFT as int / 2,
        0 <= t < frames,
    ensures
        ({
            let bins = NFFT as int / 2;
            crate::tensor::flatten(
                packed_dims(batch, channels, frames),
                seq![b, 2 * c + part, f, t],
            ) == crate::tensor::flatten(
                seq![batch, channels, 2, bins, frames],
                seq![b, c, part, f, t],
            )
        }),
        crate::tensor::in_range(
            seq![batch, channels, 2, NFFT as int / 2, frames],
            seq![b, c, part, f, t],
        ),
        crate::tensor::in_range(
            packed_dims(batch, channels, frames),
            seq![b, 2 * c + part, f, t],
        ),
{
    let bins = NFFT as int / 2;
    lemma_shape_of_four(batch, 2 * channels, bins, frames, b, 2 * c + part, f, t);
    lemma_shape_of_five(batch, channels, 2, bins, frames, b, c, part, f, t);
    assert(b * (2 * channels) + (2 * c + part) == (b * channels + c) * 2 + part)
        by (nonlinear_arith);
}

proof fn lemma_row_place(
    b: int,
    c: int,
    part: int,
    f: int,
    t: int,
    batch: int,
    channels: int,
    bins: int,
    frames: int,
)
    requires
        0 <= b < batch,
        0 <= c < channels,
        0 <= part < 2,
        0 <= f < bins,
        0 <= t < frames,
    ensures
        crate::tensor::flatten(
            seq![batch * channels, frames, bins, 2],
            seq![b * channels + c, t, f, part],
        ) == crate::tensor::flatten(
            seq![batch, channels, frames, bins, 2],
            seq![b, c, t, f, part],
        ),
        crate::tensor::in_range(
            seq![batch * channels, frames, bins, 2],
            seq![b * channels + c, t, f, part],
        ),
        crate::tensor::in_range(
            seq![batch, channels, frames, bins, 2],
            seq![b, c, t, f, part],
        ),
{
    lemma_row_in_range(b, c, batch, channels);
    lemma_shape_of_four(
        batch * channels,
        frames,
        bins,
        2,
        b * channels + c,
        t,
        f,
        part,
    );
    lemma_shape_of_five(batch, channels, frames, bins, 2, b, c, t, f, part);
}

/// What the packed spectrogram shows: channel `2 * c + part` holds, of channel
/// `c`, the real parts (`part` zero) or the imaginary parts (`part` one), and
/// frame `t` of it is frame `t + 2` of the transform.
pub proof fn law_analysis_packing(
    batch: int,
    channels: int,
    len: int,
    b: int,
    c: int,
    part: int,
    f: int,
    t: int,
)
    requires
        len >= 1,
        0 <= b < batch,
        0 <= c < channels,
        0 <= part < 2,
        0 <= f < NFFT as int / 2,
        0 <= t < crate::spectrogram::hop_count(len),
    ensures
        crate::tensor::run_origin(
            analysis_tail(batch, channels, len),
            transformed_dims(batch, channels, crate::spectrogram::hop_count(len) + 4),
            seq![b, 2 * c + part, f, t],
        ) == Some(seq![b * channels + c, t + 2, f, part]),
{
    let le = crate::spectrogram::hop_count(len);
    let bins = NFFT as int / 2;
    let rows = batch * channels;
    let row = b * channels + c;
    let tail = analysis_tail(batch, channels, len);
    let from = transformed_dims(batch, channels, le + 4);
    assert(tail.take(6) =~= tail);
    let at5 = seq![b, c, part, f, t];
    let at4 = seq![b, c, t, f, part];
    let at3 = seq![row, t, f, part];
    let at2 = seq![row, t + 2, f, part];

    // The parts are taken out of the channels.
    lemma_analysis_tail(batch, channels, len, 5);
    lemma_packed_place(b, c, part, f, t, batch, channels, le);
    crate::tensor::law_unflatten_undoes_flatten(seq![batch, channels, 2, bins, le], at5);
    crate::tensor::lemma_run_origin_push(
        tail.take(5),
        tail[5],
        from,
        seq![b, 2 * c + part, f, t],
    );
    assert(crate::tensor::run_origin(tail, from, seq![b, 2 * c + part, f, t])
        == crate::tensor::run_origin(tail.take(5), from, at5)) by {
        assert(tail.take(6) =~= tail.take(5).push(tail[5]));
    }
    // The axes are put back.
    lemma_analysis_tail(batch, channels, len, 4);
    lemma_swap_axes(b, c, part, f, t);
    crate::tensor::lemma_run_origin_push(tail.take(4), tail[4], from, at5);
    assert(crate::tensor::run_origin(tail.take(5), from, at5) == crate::tensor::run_origin(
        tail.take(4),
        from,
        at4,
    )) by {
        assert(tail.take(5) =~= tail.take(4).push(tail[4]));
    }
    // Channels become rows.
    lemma_analysis_tail(batch, channels, len, 3);
    lemma_row_place(b, c, part, f, t, batch, channels, bins, le);
    crate::tensor::law_unflatten_undoes_flatten(seq![rows, le, bins, 2], at3);
    crate::tensor::lemma_run_origin_push(tail.take(3), tail[3], from, at4);
    assert(crate::tensor::run_origin(tail.take(4), from, at4) == crate::tensor::run_origin(
        tail.take(3),
        from,
        at3,
    )) by {
        assert(tail.take(4) =~= tail.take(3).push(tail[3]));
    }
    // Two frames had been dropped in front, and nothing below the lowest bin.
    lemma_analysis_tail(batch, channels, len, 2);
    crate::tensor::lemma_run_origin_push(tail.take(2), tail[2], from, at3);
    assert(at3.update(1, at3[1] + 2) =~= at2);
    assert(crate::tensor::run_origin(tail.take(3), from, at3) == crate::tensor::run_origin(
        tail.take(2),
        from,
        at2,
    )) by {
        assert(tail.take(3) =~= tail.take(2).push(tail[2]));
    }
    lemma_analysis_tail(batch, channels, len, 1);
    crate::tensor::lemma_run_origin_push(tail.take(1), tail[1], from, at2);
    assert(at2.update(2, at2[2] + 0) =~= at2);
    assert(tail.take(2) =~= tail.take(1).push(tail[1]));
    lemma_analysis_tail(batch, channels, len, 0);
    crate::tensor::lemma_run_origin_push(tail.take(0), tail[0], from, at2);
    assert(tail.take(1) =~= tail.take(0).push(tail[0]));
    assert(tail.take(0) =~= Seq::<Op>::empty());
}

/// The spectrogram of a stereo signal and the packed spectrogram of the
/// analysis are laid out alike: at the same place both show the same part of
/// the same bin of the same frame of the same channel's transform.
pub proof fn law_spectrograms_are_laid_out_alike<T>(
    grids: (Seq<crate::stft::Complex<T>>, Seq<crate::stft::Complex<T>>),
    zero: T,
    len: int,
    c: int,
    part: int,
    f: int,
    t: int,
)
    requires
        len >= 1,
        0 <= c < 2,
        0 <= part < 2,
        0 <= f < NFFT as int / 2,
        0 <= t < crate::spectrogram::hop_count(len),
    ensures
        ({
            let le = crate::spectrogram::hop_count(len);
            let frames = crate::spectrogram::analysed_frames(len, len);
            let cell = seq![0, 2 * c + part, f, t];
            let at = crate::tensor::flatten(packed_dims(1, 2, le), cell);
            let data = crate::spectrogram::planes(grids.0, frames, grids.1, frames, le, zero);
            let grid = if c == 0 {
                grids.0
            } else {
                grids.1
            };
            let bin = grid[crate::stft::bin_at(f, t + 2, frames)];
            &&& data[at] == if part == 0 {
                bin.re
            } else {
                bin.im
            }
            &&& crate::tensor::run_origin(
                analysis_tail(1, 2, len),
                transformed_dims(1, 2, frames),
                cell,
            ) == Some(seq![c, t + 2, f, part])
        }),
{
    let le = crate::spectrogram::hop_count(len);
    let frames = crate::spectrogram::analysed_frames(len, len);
    let bins = NFFT as int / 2;
    crate::spectrogram::law_four_frames_more_than_hops(len);
    crate::spectrogram::law_plane_order(grids.0, frames, grids.1, frames, le, zero, f, t);
    lemma_shape_of_four(1, 4, bins, le, 0, 2 * c + part, f, t);
    let channel = 2 * c + part;
    let plane = bins * le;
    let at = crate::tensor::flatten(packed_dims(1, 2, le), seq![0, channel, f, t]);
    assert((channel * bins + f) * le + t == channel * plane + (f * le + t)) by (nonlinear_arith)
        requires
            plane == bins * le,
    ;
    assert(channel == 0 ==> channel * plane == 0) by (nonlinear_arith);
    assert(channel == 1 ==> channel * plane == plane) by (nonlinear_arith);
    assert(channel == 2 ==> channel * plane == 2 * plane) by (nonlinear_arith);
    assert(channel == 3 ==> channel * plane == 3 * plane) by (nonlinear_arith);
    assert(at == channel * plane + (f * le + t));
    law_analysis_packing(1, 2, len, 0, c, part, f, t);
    assert(seq![0 * 2 + c, t + 2, f, part] =~= seq![c, t + 2, f, part]);
    let data = crate::spectrogram::planes(grids.0, frames, grids.1, frames, le, zero);
    let grid = if c == 0 {
        grids.0
    } else {
        grids.1
    };
    let bin = grid[crate::stft::bin_at(f, t + 2, frames)];
    assert(data[at] == if part == 0 {
        bin.re
    } else {
        bin.im
    });
}

/// What is transformed: row `b * channels + c` is channel `c` of item `b`,
/// continued past its ends by mirroring.
pub proof fn law_analysis_reads_mirrored(
    batch: int,
    channels: int,
    len: int,
    b: int,
    c: int,
    k: int,
)
    requires
        len > crate::spectrogram::back_margin(len),
        0 <= b < batch,
        0 <= c < channels,
        0 <= k < len + crate::spectrogram::front_margin() + crate::spectrogram::back_margin(len),
    ensures
        crate::tensor::run_origin(
            analysis_head(batch, channels, len),
            seq![batch, channels, len],
            seq![b * channels + c, k],
        ) == Some(
            seq![
                b,
                c,
                crate::reflect::reflected(k - crate::spectrogram::front_margin(), len),
            ],
        ),
{
    let e = Seq::<Op>::empty();
    let n = Seq::<int>::empty();
    let pad = crate::spectrogram::front_margin();
    let right_pad = crate::spectrogram::back_margin(len);
    let dims = seq![batch, channels, len];
    let new_t = len + pad + right_pad;
    let p1 = Op::PadReflect { before: pad, after: right_pad };
    let p2 = Op::Reshape { dims: seq![batch * channels, new_t] };
    let row = b * channels + c;
    let at = seq![b, c, k];
    crate::spectrogram::law_margins(len);
    crate::tensor::lemma_run_dims_push(e, p1, dims);
    assert(dims.update(2, pad + len + right_pad) =~= seq![batch, channels, new_t]);
    crate::tensor::lemma_run_origin_push(e.push(p1), p2, dims, seq![row, k]);
    assert(seq![batch, channels, new_t] =~= n.push(batch).push(channels).push(new_t));
    assert(seq![b, c, k] =~= n.push(b).push(c).push(k));
    assert(seq![batch * channels, new_t] =~= n.push(batch * channels).push(new_t));
    assert(seq![row, k] =~= n.push(row).push(k));
    crate::tensor::lemma_flatten_push(n, n, batch, b);
    crate::tensor::lemma_flatten_push(n.push(batch), n.push(b), channels, c);
    crate::tensor::lemma_flatten_push(
        n.push(batch).push(channels),
        n.push(b).push(c),
        new_t,
        k,
    );
    crate::tensor::lemma_flatten_push(n, n, batch * channels, row);
    crate::tensor::lemma_flatten_push(n.push(batch * channels), n.push(row), new_t, k);
    crate::tensor::law_unflatten_undoes_flatten(seq![batch, channels, new_t], at);
    crate::tensor::lemma_run_origin_push(e, p1, dims, at);
    assert(at.update(2, crate::reflect::reflected(k - pad, len)) =~= seq![
        b,
        c,
        crate::reflect::reflected(k - pad, len),
    ]);
}

proof fn lemma_synthesis_head(batch: int, channels: int, frames: int, shown: int)
    requires
        0 <= shown <= 5,
    ensures
        ({
            let bins = NFFT as int / 2;
            let head = synthesis_head(batch, channels, frames);
            crate::tensor::run_dims(head.take(shown), packed_dims(batch, channels, frames)) == Some(
                if shown == 0 {
                    packed_dims(batch, channels, frames)
                } else if shown == 1 {
                    seq![batch, channels, 2, bins, frames]
                } else if shown == 2 {
                    seq![batch, channels, frames, bins, 2]
                } else if shown == 3 {
                    seq![batch, channels, frames, bins + 1, 2]
                } else if shown == 4 {
                    seq![batch, channels, frames + 4, bins + 1, 2]
                } else {
                    transformed_dims(batch, channels, frames + 4)
                },
            )
        }),
    decreases shown,
{
    let bins = NFFT as int / 2;
    let head = synthesis_head(batch, channels, frames);
    let from = packed_dims(batch, channels, frames);
    if shown == 0 {
        assert(head.take(0) =~= Seq::<Op>::empty());
    } else {
        lemma_synthesis_head(batch, channels, frames, shown - 1);
        assert(head.take(shown) =~= head.take(shown - 1).push(head[shown - 1]));
        crate::tensor::lemma_run_dims_push(head.take(shown - 1), head[shown - 1], from);
        if shown == 1 {
            lemma_shape_of_five(batch, channels, 2, bins, frames, 0, 0, 0, 0, 0);
            lemma_shape_of_four(batch, 2 * channels, bins, frames, 0, 0, 0, 0);
            assert(batch * channels * 2 == batch * (2 * channels)) by (nonlinear_arith);
        } else if shown == 2 {
            lemma_swap_axes(batch, channels, 2, bins, frames);
        } else if shown == 3 {
            assert(seq![batch, channels, frames, bins, 2].update(3, 0 + bins + 1) =~= seq![
                batch,
                channels,
                frames,
                bins + 1,
                2,
            ]);
        } else if shown == 4 {
            assert(seq![batch, channels, frames, bins + 1, 2].update(2, 2 + frames + 2) =~= seq![
                batch,
                channels,
                frames + 4,
                bins + 1,
                2,
            ]);
        } else {
            lemma_shape_of_four(batch * channels, frames + 4, bins + 1, 2, 0, 0, 0, 0);
            lemma_shape_of_five(batch, channels, frames + 4, bins + 1, 2, 0, 0, 0, 0, 0);
        }
    }
}

/// The synthesis can be applied to any packed spectrogram, and gives as many
/// samples as were asked for.
pub proof fn law_synthesis_shape(batch: int, channels: int, frames: int, length: int)
    requires
        frames >= 0,
        length >= 1,
    ensures
        crate::tensor::run_dims(
            synthesis(batch, channels, frames, length),
            packed_dims(batch, channels, frames),
        ) == Some(seq![batch, channels, length]),
{
    let head = synthesis_head(batch, channels, frames);
    let istft = Op::Istft { options: model_options(), length: synthesised_len(length) };
    let tail = synthesis_tail(batch, channels, length);
    let from = packed_dims(batch, channels, frames);
    let rows = batch * channels;
    let slen = synthesised_len(length);
    let e = Seq::<Op>::empty();
    let n = Seq::<int>::empty();
    lemma_synthesis_head(batch, channels, frames, 5);
    assert(head.take(5) =~= head);
    crate::tensor::lemma_run_dims_push(head, istft, from);
    assert(NFFT == vstd::arithmetic::power2::pow2(12)) by {
        vstd::arithmetic::power2::lemma2_to64();
    }
    let mid = seq![rows, slen];
    assert(crate::tensor::run_dims(head.push(istft), from) == Some(mid));
    crate::tensor::law_programs_compose(head.push(istft), tail, from);

    let q1 = Op::MultiplyByRoot { of: NFFT as int };
    let q2 = Op::Reshape { dims: seq![batch, channels, slen] };
    let q3 = Op::Narrow { axis: 2, start: crate::spectrogram::front_margin(), len: length };
    crate::tensor::lemma_run_dims_push(e, q1, mid);
    assert(mid =~= n.push(rows).push(slen));
    assert(seq![batch, channels, slen] =~= n.push(batch).push(channels).push(slen));
    crate::tensor::lemma_cells_push(n, rows);
    crate::tensor::lemma_cells_push(n.push(rows), slen);
    crate::tensor::lemma_cells_push(n, batch);
    crate::tensor::lemma_cells_push(n.push(batch), channels);
    crate::tensor::lemma_cells_push(n.push(batch).push(channels), slen);
    crate::tensor::lemma_run_dims_push(e.push(q1), q2, mid);
    crate::tensor::lemma_run_dims_push(e.push(q1).push(q2), q3, mid);
    law_synthesised_len(length);
    assert(seq![batch, channels, slen].update(2, length) =~= seq![batch, channels, length]);
    assert(tail == e.push(q1).push(q2).push(q3));
    assert(crate::tensor::run_dims(tail, mid) == Some(seq![batch, channels, length]));
    assert(synthesis(batch, channels, frames, length) == head.push(istft) + tail);
}

/// Analysing audio and synthesising as many samples from what comes out gives
/// audio of the same dimensions.
pub proof fn law_synthesis_recovers_length(batch: int, channels: int, t: int)
    requires
        t > crate::spectrogram::back_margin(t),
    ensures
        crate::tensor::run_dims(
            analysis(batch, channels, t) + synthesis(
                batch,
                channels,
                crate::spectrogram::hop_count(t),
                t,
            ),
            seq![batch, channels, t],
        ) == Some(seq![batch, channels, t]),
{
    crate::spectrogram::law_margins(t);
    law_analysis_shape(batch, channels, t);
    law_synthesis_shape(batch, channels, crate::spectrogram::hop_count(t), t);
    crate::tensor::law_programs_compose(
        analysis(batch, channels, t),
        synthesis(batch, channels, crate::spectrogram::hop_count(t), t),
        seq![batch, channels, t],
    );
}

/// What is transformed back: frame `t` and bin `f` of channel `c` come from
/// frame `t - 2` of the packed spectrogram, and are zero in the two frames at
/// either end and in the highest bin.
pub proof fn law_synthesis_unpacking(
    batch: int,
    channels: int,
    frames: int,
    b: int,
    c: int,
    part: int,
    f: int,
    t: int,
)
    requires
        frames >= 0,
        0 <= b < batch,
        0 <= c < channels,
        0 <= part < 2,
        0 <= f <= NFFT as int / 2,
        0 <= t < frames + 4,
    ensures
        crate::tensor::run_origin(
            synthesis_head(batch, channels, frames),
            packed_dims(batch, channels, frames),
            seq![b * channels + c, t, f, part],
        ) == (if f < NFFT as int / 2 && 2 <= t < frames + 2 {
            Some(seq![b, 2 * c + part, f, t - 2])
        } else {
            None
        }),
{
    let bins = NFFT as int / 2;
    let head = synthesis_head(batch, channels, frames);
    let from = packed_dims(batch, channels, frames);
    let row = b * channels + c;
    let at5 = seq![row, t, f, part];
    let at4 = seq![b, c, t, f, part];
    let at3 = seq![b, c, t - 2, f, part];
    let at1 = seq![b, c, part, f, t - 2];
    assert(head.take(5) =~= head);

    lemma_synthesis_head(batch, channels, frames, 4);
    lemma_row_place(b, c, part, f, t, batch, channels, bins + 1, frames + 4);
    crate::tensor::law_unflatten_undoes_flatten(
        seq![batch, channels, frames + 4, bins + 1, 2],
        at4,
    );
    crate::tensor::lemma_run_origin_push(head.take(4), head[4], from, at5);
    assert(head.take(5) =~= head.take(4).push(head[4]));

    lemma_synthesis_head(batch, channels, frames, 3);
    crate::tensor::lemma_run_origin_push(head.take(3), head[3], from, at4);
    assert(head.take(4) =~= head.take(3).push(head[3]));
    if 2 <= t < frames + 2 {
        assert(at4.update(2, at4[2] - 2) =~= at3);
        lemma_synthesis_head(batch, channels, frames, 2);
        crate::tensor::lemma_run_origin_push(head.take(2), head[2], from, at3);
        assert(head.take(3) =~= head.take(2).push(head[2]));
        if f < bins {
            assert(at3.update(3, at3[3] - 0) =~= at3);
            lemma_synthesis_head(batch, channels, frames, 1);
            lemma_swap_axes(b, c, t - 2, f, part);
            crate::tensor::lemma_run_origin_push(head.take(1), head[1], from, at3);
            assert(head.take(2) =~= head.take(1).push(head[1]));
            lemma_synthesis_head(batch, channels, frames, 0);
            lemma_packed_place(b, c, part, f, t - 2, batch, channels, frames);
            crate::tensor::law_unflatten_undoes_flatten(from, seq![b, 2 * c + part, f, t - 2]);
            crate::tensor::lemma_run_origin_push(head.take(0), head[0], from, at1);
            assert(head.take(1) =~= head.take(0).push(head[0]));
            assert(head.take(0) =~= Seq::<Op>::empty());
        }
    }
}

/// The synthesis puts every cell of the packed spectrogram back where the
/// analysis took it from.
pub proof fn law_synthesis_undoes_packing(
    batch: int,
    channels: int,
    len: int,
    b: int,
    c: int,
    part: int,
    f: int,
    t: int,
)
    requires
        len >= 1,
        0 <= b < batch,
        0 <= c < channels,
        0 <= part < 2,
        0 <= f < NFFT as int / 2,
        2 <= t < crate::spectrogram::hop_count(len) + 2,
    ensures
        ({
            let le = crate::spectrogram::hop_count(len);
            let at = seq![b * channels + c, t, f, part];
            let packed = crate::tensor::run_origin(
                synthesis_head(batch, channels, le),
                packed_dims(batch, channels, le),
                at,
            );
            &&& packed is Some
            &&& crate::tensor::run_origin(
                analysis_tail(batch, channels, len),
                transformed_dims(batch, channels, le + 4),
                packed->0,
            ) == Some(at)
        }),
{
    let le = crate::spectrogram::hop_count(len);
    law_synthesis_unpacking(batch, channels, le, b, c, part, f, t);
    law_analysis_packing(batch, channels, len, b, c, part, f, t - 2);
}

/// What is kept of the inverse transform: sample `k` of channel `c` is the
/// sample `k` places behind the front margin of its row.
pub proof fn law_synthesis_drops_margins(
    batch: int,
    channels: int,
    length: int,
    b: int,
    c: int,
    k: int,
)
    requires
        0 <= b < batch,
        0 <= c < channels,
        0 <= k < length,
    ensures
        crate::tensor::run_origin(
            synthesis_tail(batch, channels, length),
            seq![batch * channels, synthesised_len(length)],
            seq![b, c, k],
        ) == Some(seq![b * channels + c, k + crate::spectrogram::front_margin()]),
{
    let rows = batch * channels;
    let row = b * channels + c;
    let slen = synthesised_len(length);
    let pad = crate::spectrogram::front_margin();
    let mid = seq![rows, slen];
    let e = Seq::<Op>::empty();
    let n = Seq::<int>::empty();
    let q1 = Op::MultiplyByRoot { of: NFFT as int };
    let q2 = Op::Reshape { dims: seq![batch, channels, slen] };
    let q3 = Op::Narrow { axis: 2, start: pad, len: length };
    let at3 = seq![b, c, k];
    let at2 = seq![b, c, k + pad];
    let at1 = seq![row, k + pad];
    law_synthesised_len(length);
    lemma_row_in_range(b, c, batch, channels);
    assert(mid =~= n.push(rows).push(slen));
    assert(seq![batch, channels, slen] =~= n.push(batch).push(channels).push(slen));
    assert(at2 =~= n.push(b).push(c).push(k + pad));
    assert(at1 =~= n.push(row).push(k + pad));
    crate::tensor::lemma_cells_push(n, rows);
    crate::tensor::lemma_cells_push(n.push(rows), slen);
    crate::tensor::lemma_cells_push(n, batch);
    crate::tensor::lemma_cells_push(n.push(batch), channels);
    crate::tensor::lemma_cells_push(n.push(batch).push(channels), slen);
    crate::tensor::lemma_flatten_push(n, n, rows, row);
    crate::tensor::lemma_flatten_push(n.push(rows), n.push(row), slen, k + pad);
    crate::tensor::lemma_flatten_push(n, n, batch, b);
    crate::tensor::lemma_flatten_push(n.push(batch), n.push(b), channels, c);
    crate::tensor::lemma_flatten_push(
        n.push(batch).push(channels),
        n.push(b).push(c),
        slen,
        k + pad,
    );
    crate::tensor::law_unflatten_undoes_flatten(mid, at1);
    crate::tensor::lemma_run_dims_push(e, q1, mid);
    crate::tensor::lemma_run_dims_push(e.push(q1), q2, mid);
    crate::tensor::lemma_run_origin_push(e.push(q1).push(q2), q3, mid, at3);
    assert(at3.update(2, at3[2] + pad) =~= at2);
    crate::tensor::lemma_run_origin_push(e.push(q1), q2, mid, at2);
    crate::tensor::lemma_run_origin_push(e, q1, mid, at1);
}

/// What the programs do to the values of cells, for audio of any dimensions:
/// the analysis leaves the samples as they are and divides what the transform
/// gives by the square root of 4096; the synthesis leaves the cells of the
/// spectrogram as they are and multiplies what the inverse transform gives by
/// the square root of 4096. So the two together leave the scale as it was.
pub proof fn law_programs_normalise(
    batch: int,
    channels: int,
    t: int,
    frames: int,
    length: int,
)
    ensures
        crate::tensor::squared_scale(analysis_head(batch, channels, t)) == (1int, 1int),
        crate::tensor::squared_scale(analysis_tail(batch, channels, t)) == (1int, 4096int),
        crate::tensor::squared_scale(analysis(batch, channels, t)) == (1int, 4096int),
        crate::tensor::squared_scale(synthesis_head(batch, channels, frames)) == (1int, 1int),
        crate::tensor::squared_scale(synthesis_tail(batch, channels, length)) == (4096int, 1int),
        crate::tensor::squared_scale(synthesis(batch, channels, frames, length)) == (
            4096int,
            1int,
        ),
        crate::tensor::squared_scale(
            analysis(batch, channels, t) + synthesis(batch, channels, frames, length),
        ) == (4096int, 4096int),
{
    let a = analysis_head(batch, channels, t);
    let b = analysis_tail(batch, channels, t);
    let c = synthesis_head(batch, channels, frames);
    let d = synthesis_tail(batch, channels, length);
    let stft = Op::Stft { options: model_options() };
    let istft = Op::Istft { options: model_options(), length: synthesised_len(length) };
    crate::tensor::lemma_scale_take(a, 0);
    crate::tensor::lemma_scale_take(a, 1);
    crate::tensor::lemma_scale_take(b, 0);
    crate::tensor::lemma_scale_take(b, 1);
    crate::tensor::lemma_scale_take(b, 2);
    crate::tensor::lemma_scale_take(b, 3);
    crate::tensor::lemma_scale_take(b, 4);
    crate::tensor::lemma_scale_take(b, 5);
    crate::tensor::lemma_scale_take(c, 0);
    crate::tensor::lemma_scale_take(c, 1);
    crate::tensor::lemma_scale_take(c, 2);
    crate::tensor::lemma_scale_take(c, 3);
    crate::tensor::lemma_scale_take(c, 4);
    crate::tensor::lemma_scale_take(d, 0);
    crate::tensor::lemma_scale_take(d, 1);
    crate::tensor::lemma_scale_take(d, 2);
    crate::tensor::lemma_scale_push(a, stft);
    crate::tensor::lemma_scale_push(c, istft);
    crate::tensor::law_scales_multiply(a.push(stft), b);
    crate::tensor::law_scales_multiply(c.push(istft), d);
    crate::tensor::law_scales_multiply(
        analysis(batch, channels, t),
        synthesis(batch, channels, frames, length),
    );
}

/// The options of both transforms.
fn options() -> (o: StftOptions)
    ensures
        o == model_options(),
{
    StftOptions { n_fft: NFFT, hop_length: HOP_LENGTH, win_length: NFFT, center: true, onesided: true }
}

/// Plans the analysis of audio of dimensions `dims`, which are
/// `[batch, channels, samples]`.
pub fn spec_cac(dims: [usize; 3]) -> (ops: Vec<TensorOp>)
    requires
        dims@[0] * dims@[1] <= usize::MAX,
        2 * dims@[1] <= usize::MAX,
        dims@[2] > crate::spectrogram::back_margin(dims@[2] as int),
        dims@[2] + crate::spectrogram::front_margin() + crate::spectrogram::back_margin(
            dims@[2] as int,
        ) <= usize::MAX,
    ensures
        crate::tensor::program(ops@) == analysis(
            dims@[0] as int,
            dims@[1] as int,
            dims@[2] as int,
        ),
        crate::tensor::run_dims(
            crate::tensor::program(ops@),
            crate::tensor::integers(dims@),
        ) == Some(
            packed_dims(
                dims@[0] as int,
                dims@[1] as int,
                crate::spectrogram::hop_count(dims@[2] as int),
            ),
        ),
        ({
            let batch = dims@[0] as int;
            let channels = dims@[1] as int;
            let t = dims@[2] as int;
            let hops = (t + 1023) / 1024;
            &&& ops@.len() == 9
            &&& ops@[0] matches TensorOp::PadReflect { before, after } && before == 1536 && after
                == 1536 + 1024 * hops - t
            &&& ops@[1] matches TensorOp::Reshape { dims: to } && to@.len() == 2 && to@[0] == batch
                * channels && to@[1] == 3072 + 1024 * hops
            &&& ops@[2] matches TensorOp::Stft { options } && options.n_fft == 4096
                && options.hop_length == 1024 && options.win_length == 4096 && options.center
                && options.onesided
            &&& ops@[3] matches TensorOp::DivideByRoot { of } && of == 4096
            &&& ops@[4] matches TensorOp::Narrow { axis, start, len } && axis == 2 && start == 0
                && len == 2048
            &&& ops@[5] matches TensorOp::Narrow { axis, start, len } && axis == 1 && start == 2
                && len == hops
            &&& ops@[6] matches TensorOp::Reshape { dims: to } && to@.len() == 5 && to@[0] == batch
                && to@[1] == channels && to@[2] == hops && to@[3] == 2048 && to@[4] == 2
            &&& ops@[7] matches TensorOp::Permute { axes } && axes@.len() == 5 && axes@[0] == 0
                && axes@[1] == 1 && axes@[2] == 4 && axes@[3] == 3 && axes@[4] == 2
            &&& ops@[8] matches TensorOp::Reshape { dims: to } && to@.len() == 4 && to@[0] == batch
                && to@[1] == 2 * channels && to@[2] == 2048 && to@[3] == hops
        }),
        crate::tensor::squared_scale(crate::tensor::program(ops@)) == (1int, 4096int),
{
    let batch: usize = dims[0];
    let channels: usize = dims[1];
    let t: usize = dims[2];
    let hl: usize = HOP_LENGTH;
    let bins: usize = NFFT / 2;
    proof {
        crate::spectrogram::law_margins(t as int);
        law_analysis_shape(batch as int, channels as int, t as int);
        law_programs_normalise(batch as int, channels as int, t as int, 0, 0);
    }
    let le: usize = (t + hl - 1) / hl;
    let pad: usize = hl / 2 * 3;
    let right_pad: usize = pad + le * hl - t;
    let new_t: usize = t + pad + right_pad;

    let flat: Vec<usize> = vec![batch * channels, new_t];
    let split: Vec<usize> = vec![batch, channels, le, bins, 2];
    let swap: Vec<usize> = vec![0, 1, 4, 3, 2];
    let packed: Vec<usize> = vec![batch, 2 * channels, bins, le];
    assert(crate::tensor::integers(flat@) =~= seq![batch * channels, new_t as int]);
    assert(crate::tensor::integers(split@) =~= seq![
        batch as int,
        channels as int,
        le as int,
        bins as int,
        2,
    ]);
    assert(crate::tensor::integers(swap@) =~= swap_axes());
    assert(crate::tensor::integers(packed@) =~= packed_dims(
        batch as int,
        channels as int,
        le as int,
    ));
    let ops: Vec<TensorOp> = vec![
        TensorOp::PadReflect { before: pad, after: right_pad },
        TensorOp::Reshape { dims: flat },
        TensorOp::Stft { options: options() },
        TensorOp::DivideByRoot { of: NFFT },
        TensorOp::Narrow { axis: 2, start: 0, len: bins },
        TensorOp::Narrow { axis: 1, start: 2, len: le },
        TensorOp::Reshape { dims: split },
        TensorOp::Permute { axes: swap },
        TensorOp::Reshape { dims: packed },
    ];
    assert(crate::tensor::program(ops@) =~= analysis(batch as int, channels as int, t as int));
    assert(crate::tensor::integers(dims@) =~= seq![batch as int, channels as int, t as int]);
    ops
}

/// Plans the synthesis of `length` samples from a packed spectrogram of
/// dimensions `dims`, which are `[batch, 2 * channels, NFFT / 2, frames]`.
pub fn ispec_cac(dims: [usize; 4], length: usize) -> (ops: Vec<TensorOp>)
    requires
        dims@[1] % 2 == 0,
        dims@[2] == NFFT as int / 2,
        dims@[0] * (dims@[1] as int / 2) <= usize::MAX,
        dims@[3] + 4 <= usize::MAX,
        length >= 1,
        synthesised_len(length as int) <= usize::MAX,
    ensures
        crate::tensor::program(ops@) == synthesis(
            dims@[0] as int,
            dims@[1] as int / 2,
            dims@[3] as int,
            length as int,
        ),
        crate::tensor::run_dims(
            crate::tensor::program(ops@),
            crate::tensor::integers(dims@),
        ) == Some(seq![dims@[0] as int, dims@[1] as int / 2, length as int]),
        ({
            let batch = dims@[0] as int;
            let channels = dims@[1] as int / 2;
            let frames = dims@[3] as int;
            let whole = 1024 * ((length + 1023) / 1024) + 3072;
            &&& ops@.len() == 9
            &&& ops@[0] matches TensorOp::Reshape { dims: to } && to@.len() == 5 && to@[0] == batch
                && to@[1] == channels && to@[2] == 2 && to@[3] == 2048 && to@[4] == frames
            &&& ops@[1] matches TensorOp::Permute { axes } && axes@.len() == 5 && axes@[0] == 0
                && axes@[1] == 1 && axes@[2] == 4 && axes@[3] == 3 && axes@[4] == 2
            &&& ops@[2] matches TensorOp::PadZeros { axis, before, after } && axis == 3 && before
                == 0 && after == 1
            &&& ops@[3] matches TensorOp::PadZeros { axis, before, after } && axis == 2 && before
                == 2 && after == 2
            &&& ops@[4] matches TensorOp::Reshape { dims: to } && to@.len() == 4 && to@[0] == batch
                * channels && to@[1] == frames + 4 && to@[2] == 2049 && to@[3] == 2
            &&& ops@[5] matches TensorOp::Istft { options, length: long } && long == whole
                && options.n_fft == 4096 && options.hop_length == 1024 && options.win_length == 4096
                && options.center && options.onesided
            &&& ops@[6] matches TensorOp::MultiplyByRoot { of } && of == 4096
            &&& ops@[7] matches TensorOp::Reshape { dims: to } && to@.len() == 3 && to@[0] == batch
                && to@[1] == channels && to@[2] == whole
            &&& ops@[8] matches TensorOp::Narrow { axis, start, len } && axis == 2 && start == 1536
                && len == length
        }),
        crate::tensor::squared_scale(crate::tensor::program(ops@)) == (4096int, 1int),
{
    let batch: usize = dims[0];
    let channels: usize = dims[1] / 2;
    let freqs_in: usize = dims[2];
    let frames_in: usize = dims[3];
    let hl: usize = HOP_LENGTH;
    proof {
        law_synthesised_len(length as int);
        law_synthesis_shape(batch as int, channels as int, frames_in as int, length as int);
        law_programs_normalise(
            batch as int,
            channels as int,
            1,
            frames_in as int,
            length as int,
        );
    }
    let pad: usize = hl / 2 * 3;
    let le: usize = hl * ((length + hl - 1) / hl) + 2 * pad;

    let unpacked: Vec<usize> = vec![batch, channels, 2, freqs_in, frames_in];
    let swap: Vec<usize> = vec![0, 1, 4, 3, 2];
    let flat: Vec<usize> = vec![batch * channels, frames_in + 4, freqs_in + 1, 2];
    let rows: Vec<usize> = vec![batch, channels, le];
    assert(crate::tensor::integers(unpacked@) =~= seq![
        batch as int,
        channels as int,
        2,
        freqs_in as int,
        frames_in as int,
    ]);
    assert(crate::tensor::integers(swap@) =~= swap_axes());
    assert(crate::tensor::integers(flat@) =~= transformed_dims(
        batch as int,
        channels as int,
        frames_in + 4,
    ));
    assert(crate::tensor::integers(rows@) =~= seq![batch as int, channels as int, le as int]);
    let ops: Vec<TensorOp> = vec![
        TensorOp::Reshape { dims: unpacked },
        TensorOp::Permute { axes: swap },
        TensorOp::PadZeros { axis: 3, before: 0, after: 1 },
        TensorOp::PadZeros { axis: 2, before: 2, after: 2 },
        TensorOp::Reshape { dims: flat },
        TensorOp::Istft { options: options(), length: le },
        TensorOp::MultiplyByRoot { of: NFFT },
        TensorOp::Reshape { dims: rows },
        TensorOp::Narrow { axis: 2, start: pad, len: length },
    ];
    assert(crate::tensor::program(ops@) =~= synthesis(
        batch as int,
        channels as int,
        frames_in as int,
        length as int,
    ));
    assert(crate::tensor::integers(dims@) =~= packed_dims(
        batch as int,
        channels as int,
        frames_in as int,
    ));
    ops
}

} // verus!
