//! Programs of tensor operations, and what they do to shapes and cells.
//!
//! A program is a list of operations for a tensor library to carry out one
//! after the other. Most of them only move cells; for those [`origin`] tells
//! where a cell of the result was taken from.
use vstd::arithmetic::div_mod::lemma_fundamental_div_mod_converse;
use vstd::prelude::*;

verus! {

/// How a signal is cut into frames for a short-time Fourier transform.
#[derive(Clone, Copy, Debug, PartialEq, Eq, Structural)]
pub struct StftOptions {
    pub n_fft: usize,
    pub hop_length: usize,
    pub win_length: usize,
    /// Whether the signal is mirrored by half a frame on either side first.
    pub center: bool,
    /// Whether only the lower half of each spectrum is kept.
    pub onesided: bool,
}

/// One operation on a tensor.
#[derive(Debug)]
pub enum TensorOp {
    /// Mirrors the last axis by `before` cells in front and `after` behind.
    PadReflect { before: usize, after: usize },
    /// Puts zeros in front of and behind the cells of `axis`.
    PadZeros { axis: usize, before: usize, after: usize },
    /// Reads the cells, in order, as a tensor of other dimensions.
    Reshape { dims: Vec<usize> },
    /// Reorders the axes: axis `k` of the result is axis `axes[k]`.
    Permute { axes: Vec<usize> },
    /// Keeps `len` positions of `axis`, from `start` on.
    Narrow { axis: usize, start: usize, len: usize },
    /// Transforms every row of a two-dimensional tensor, under a periodic Hann
    /// window, to frames of bins of a real and an imaginary part.
    Stft { options: StftOptions },
    /// Transforms frames of bins back to rows of `length` samples.
    Istft { options: StftOptions, length: usize },
    /// Divides every cell by the square root of `of`.
    DivideByRoot { of: usize },
    /// Multiplies every cell by the square root of `of`.
    MultiplyByRoot { of: usize },
}

/// What a [`TensorOp`] stands for.
pub enum Op {
    PadReflect { before: int, after: int },
    PadZeros { axis: int, before: int, after: int },
    Reshape { dims: Seq<int> },
    Permute { axes: Seq<int> },
    Narrow { axis: int, start: int, len: int },
    Stft { options: StftOptions },
    Istft { options: StftOptions, length: int },
    DivideByRoot { of: int },
    MultiplyByRoot { of: int },
}

/// A list of machine numbers as a list of integers.
pub open spec fn integers(s: Seq<usize>) -> Seq<int> {
    Seq::new(s.len(), |i: int| s[i] as int)
}

impl View for TensorOp {
    type V = Op;

    open spec fn view(&self) -> Op {
        match *self {
            TensorOp::PadReflect { before, after } => Op::PadReflect {
                before: before as int,
                after: after as int,
            },
            TensorOp::PadZeros { axis, before, after } => Op::PadZeros {
                axis: axis as int,
                before: before as int,
                after: after as int,
            },
            TensorOp::Reshape { dims } => Op::Reshape { dims: integers(dims@) },
            TensorOp::Permute { axes } => Op::Permute { axes: integers(axes@) },
            TensorOp::Narrow { axis, start, len } => Op::Narrow {
                axis: axis as int,
                start: start as int,
                len: len as int,
            },
            TensorOp::Stft { options } => Op::Stft { options },
            TensorOp::Istft { options, length } => Op::Istft { options, length: length as int },
            TensorOp::DivideByRoot { of } => Op::DivideByRoot { of: of as int },
            TensorOp::MultiplyByRoot { of } => Op::MultiplyByRoot { of: of as int },
        }
    }
}

/// What a list of operations stands for.
pub open spec fn program(ops: Seq<TensorOp>) -> Seq<Op> {
    Seq::new(ops.len(), |i: int| ops[i]@)
}

/// The number of cells of a tensor of dimensions `dims`.
pub open spec fn cells(dims: Seq<int>) -> int
    decreases dims.len(),
{
    if dims.len() == 0 {
        1
    } else {
        cells(dims.drop_last()) * dims.last()
    }
}

/// Whether `idx` is the index of a cell of a tensor of dimensions `dims`.
pub open spec fn in_range(dims: Seq<int>, idx: Seq<int>) -> bool {
    &&& idx.len() == dims.len()
    &&& forall|k: int| 0 <= k < dims.len() ==> 0 <= #[trigger] idx[k] < dims[k]
}

/// The place of the cell at `idx` when the last axis runs fastest.
pub open spec fn flatten(dims: Seq<int>, idx: Seq<int>) -> int
    decreases dims.len(),
{
    if dims.len() == 0 {
        0
    } else {
        flatten(dims.drop_last(), idx.drop_last()) * dims.last() + idx.last()
    }
}

/// The index of the cell at place `at`.
pub open spec fn unflatten(dims: Seq<int>, at: int) -> Seq<int>
    decreases dims.len(),
{
    if dims.len() == 0 {
        Seq::empty()
    } else {
        unflatten(dims.drop_last(), at / dims.last()).push(at % dims.last())
    }
}

/// Whether `axes` lists each of the numbers below `n` once.
pub open spec fn is_permutation(axes: Seq<int>, n: int) -> bool {
    &&& axes.len() == n
    &&& axes.no_duplicates()
    &&& forall|k: int| 0 <= k < n ==> 0 <= #[trigger] axes[k] < n
}

/// Whether frames can be cut by `options`: frames of a power of two of samples,
/// centred, of which the lower half of the spectrum is kept.
pub open spec fn are_usable(options: StftOptions) -> bool {
    &&& options.center
    &&& options.onesided
    &&& exists|k: nat| options.n_fft == #[trigger] vstd::arithmetic::power2::pow2(k)
    &&& 1 <= options.hop_length <= options.win_length <= options.n_fft
}

/// The dimensions of the result of `op`, where it can be applied to a tensor
/// of dimensions `dims`.
pub open spec fn dims_after(op: Op, dims: Seq<int>) -> Option<Seq<int>> {
    match op {
        Op::PadReflect { before, after } => if dims.len() > 0 && before < dims.last() && after
            < dims.last() {
            Some(dims.update(dims.len() - 1, before + dims.last() + after))
        } else {
            None
        },
        Op::PadZeros { axis, before, after } => if 0 <= axis < dims.len() {
            Some(dims.update(axis, before + dims[axis] + after))
        } else {
            None
        },
        Op::Reshape { dims: to } => if cells(to) == cells(dims) {
            Some(to)
        } else {
            None
        },
        Op::Permute { axes } => if is_permutation(axes, dims.len() as int) {
            Some(Seq::new(dims.len(), |k: int| dims[axes[k]]))
        } else {
            None
        },
        Op::Narrow { axis, start, len } => if 0 <= axis < dims.len() && len > 0 && start + len
            <= dims[axis] {
            Some(dims.update(axis, len))
        } else {
            None
        },
        Op::Stft { options } => if dims.len() == 2 && are_usable(options) && dims[1]
            > options.n_fft as int / 2 {
            Some(
                seq![
                    dims[0],
                    (dims[1] + options.n_fft as int / 2 * 2 - options.n_fft)
                        / options.hop_length as int + 1,
                    options.n_fft as int / 2 + 1,
                    2,
                ],
            )
        } else {
            None
        },
        Op::Istft { options, length } => if dims.len() == 4 && are_usable(options) && dims[1]
            >= 1 && dims[2] == options.n_fft as int / 2 + 1 && dims[3] == 2 {
            Some(seq![dims[0], length])
        } else {
            None
        },
        Op::DivideByRoot { .. } => Some(dims),
        Op::MultiplyByRoot { .. } => Some(dims),
    }
}

/// The index, in a tensor of dimensions `dims`, of the cell that stands at
/// `idx` after `op`; `None` where `op` put a zero. It is meant for operations
/// other than the two transforms.
pub open spec fn origin(op: Op, dims: Seq<int>, idx: Seq<int>) -> Option<Seq<int>> {
    match op {
        Op::PadReflect { before, after } => Some(
            idx.update(
                dims.len() - 1,
                crate::reflect::reflected(idx.last() - before, dims.last()),
            ),
        ),
        Op::PadZeros { axis, before, after } => if before <= idx[axis] < before + dims[axis] {
            Some(idx.update(axis, idx[axis] - before))
        } else {
            None
        },
        Op::Reshape { dims: to } => Some(unflatten(dims, flatten(to, idx))),
        Op::Permute { axes } => Some(Seq::new(dims.len(), |k: int| idx[axes.index_of(k)])),
        Op::Narrow { axis, start, len } => Some(idx.update(axis, idx[axis] + start)),
        _ => Some(idx),
    }
}

/// The dimensions of the result of all of `ops`, in order, where they can be
/// applied.
pub open spec fn run_dims(ops: Seq<Op>, dims: Seq<int>) -> Option<Seq<int>>
    decreases ops.len(),
{
    if ops.len() == 0 {
        Some(dims)
    } else {
        match run_dims(ops.drop_last(), dims) {
            Some(d) => dims_after(ops.last(), d),
            None => None,
        }
    }
}

/// The index, in a tensor of dimensions `dims`, of the cell that stands at
/// `idx` after all of `ops`; `None` where one of them put a zero.
pub open spec fn run_origin(ops: Seq<Op>, dims: Seq<int>, idx: Seq<int>) -> Option<Seq<int>>
    decreases ops.len(),
{
    if ops.len() == 0 {
        Some(idx)
    } else {
        match run_dims(ops.drop_last(), dims) {
            Some(d) => match origin(ops.last(), d, idx) {
                Some(i) => run_origin(ops.drop_last(), dims, i),
                None => None,
            },
            None => None,
        }
    }
}

/// The square of what `op` multiplies every cell by, as a numerator and a
/// denominator.
pub open spec fn squared_factor(op: Op) -> (int, int) {
    match op {
        Op::DivideByRoot { of } => (1, of),
        Op::MultiplyByRoot { of } => (of, 1),
        _ => (1, 1),
    }
}

/// The square of what all of `ops` together multiply every cell by, the two
/// transforms left aside, as a numerator and a denominator.
pub open spec fn squared_scale(ops: Seq<Op>) -> (int, int)
    decreases ops.len(),
{
    if ops.len() == 0 {
        (1, 1)
    } else {
        let before = squared_scale(ops.drop_last());
        let factor = squared_factor(ops.last());
        (before.0 * factor.0, before.1 * factor.1)
    }
}

/// Dividing by a root divides the square by what the root is of, multiplying
/// multiplies it, and nothing else changes it.
pub proof fn law_roots_scale(ops: Seq<Op>, of: int, other: Op)
    requires
        !(other is DivideByRoot),
        !(other is MultiplyByRoot),
    ensures
        squared_scale(Seq::empty()) == (1int, 1int),
        squared_scale(ops.push(Op::DivideByRoot { of })) == (
            squared_scale(ops).0,
            squared_scale(ops).1 * of,
        ),
        squared_scale(ops.push(Op::MultiplyByRoot { of })) == (
            squared_scale(ops).0 * of,
            squared_scale(ops).1,
        ),
        squared_scale(ops.push(other)) == squared_scale(ops),
{
    lemma_scale_push(ops, Op::DivideByRoot { of });
    lemma_scale_push(ops, Op::MultiplyByRoot { of });
    lemma_scale_push(ops, other);
    let s = squared_scale(ops);
    lemma_times_one(s.0, squared_factor(Op::DivideByRoot { of }).0);
    lemma_times_one(s.1, squared_factor(Op::MultiplyByRoot { of }).1);
    lemma_times_one(s.0, squared_factor(other).0);
    lemma_times_one(s.1, squared_factor(other).1);
}

proof fn lemma_times_one(x: int, one: int)
    requires
        one == 1,
    ensures
        x * one == x,
{
    assert(x * one == x) by (nonlinear_arith)
        requires
            one == 1,
    ;
}

pub(crate) proof fn lemma_scale_push(ops: Seq<Op>, op: Op)
    ensures
        squared_scale(ops.push(op)) == (
            squared_scale(ops).0 * squared_factor(op).0,
            squared_scale(ops).1 * squared_factor(op).1,
        ),
{
    assert(ops.push(op).drop_last() =~= ops);
}

pub(crate) proof fn lemma_scale_take(ops: Seq<Op>, k: int)
    requires
        0 <= k < ops.len(),
    ensures
        squared_scale(ops.take(k + 1)) == (
            squared_scale(ops.take(k)).0 * squared_factor(ops[k]).0,
            squared_scale(ops.take(k)).1 * squared_factor(ops[k]).1,
        ),
        k == 0 ==> squared_scale(ops.take(k)) == (1int, 1int),
        k + 1 == ops.len() ==> ops.take(k + 1) == ops,
{
    assert(ops.take(k + 1) =~= ops.take(k).push(ops[k]));
    lemma_scale_push(ops.take(k), ops[k]);
    if k + 1 == ops.len() {
        assert(ops.take(k + 1) =~= ops);
    }
}

/// The scales of two programs multiply.
pub proof fn law_scales_multiply(first: Seq<Op>, second: Seq<Op>)
    ensures
        squared_scale(first + second) == (
            squared_scale(first).0 * squared_scale(second).0,
            squared_scale(first).1 * squared_scale(second).1,
        ),
    decreases second.len(),
{
    if second.len() == 0 {
        assert(first + second =~= first);
        lemma_times_one(squared_scale(first).0, squared_scale(second).0);
        lemma_times_one(squared_scale(first).1, squared_scale(second).1);
    } else {
        let rest = second.drop_last();
        let factor = squared_factor(second.last());
        law_scales_multiply(first, rest);
        assert((first + second).drop_last() =~= first + rest);
        let a = squared_scale(first);
        let b = squared_scale(rest);
        assert(a.0 * b.0 * factor.0 == a.0 * (b.0 * factor.0)) by (nonlinear_arith);
        assert(a.1 * b.1 * factor.1 == a.1 * (b.1 * factor.1)) by (nonlinear_arith);
    }
}

pub(crate) proof fn lemma_cells_push(dims: Seq<int>, d: int)
    ensures
        cells(dims.push(d)) == cells(dims) * d,
{
    assert(dims.push(d).drop_last() =~= dims);
}

pub(crate) proof fn lemma_flatten_push(dims: Seq<int>, idx: Seq<int>, d: int, i: int)
    ensures
        flatten(dims.push(d), idx.push(i)) == flatten(dims, idx) * d + i,
{
    assert(dims.push(d).drop_last() =~= dims);
    assert(idx.push(i).drop_last() =~= idx);
}

/// Every cell has its own place.
pub proof fn law_unflatten_undoes_flatten(dims: Seq<int>, idx: Seq<int>)
    requires
        in_range(dims, idx),
    ensures
        unflatten(dims, flatten(dims, idx)) == idx,
    decreases dims.len(),
{
    if dims.len() > 0 {
        let d = dims.last();
        let rest = flatten(dims.drop_last(), idx.drop_last());
        assert(0 <= idx[dims.len() - 1] < dims[dims.len() - 1]);
        assert(in_range(dims.drop_last(), idx.drop_last())) by {
            assert forall|k: int| 0 <= k < dims.drop_last().len() implies 0
                <= #[trigger] idx.drop_last()[k] < dims.drop_last()[k] by {
                assert(0 <= idx[k] < dims[k]);
            }
        }
        law_unflatten_undoes_flatten(dims.drop_last(), idx.drop_last());
        lemma_fundamental_div_mod_converse(rest * d + idx.last(), d, rest, idx.last());
        assert(unflatten(dims, flatten(dims, idx)) =~= idx.drop_last().push(idx.last()));
        assert(idx.drop_last().push(idx.last()) =~= idx);
    } else {
        assert(unflatten(dims, flatten(dims, idx)) =~= idx);
    }
}

pub(crate) proof fn lemma_run_dims_push(ops: Seq<Op>, op: Op, dims: Seq<int>)
    ensures
        run_dims(ops.push(op), dims) == (match run_dims(ops, dims) {
            Some(d) => dims_after(op, d),
            None => None,
        }),
{
    assert(ops.push(op).drop_last() =~= ops);
}

/// Running one program and then another is running both as one.
pub proof fn law_programs_compose(first: Seq<Op>, second: Seq<Op>, dims: Seq<int>)
    ensures
        run_dims(first + second, dims) == (match run_dims(first, dims) {
            Some(d) => run_dims(second, d),
            None => None,
        }),
    decreases second.len(),
{
    if second.len() == 0 {
        assert(first + second =~= first);
    } else {
        law_programs_compose(first, second.drop_last(), dims);
        assert((first + second).drop_last() =~= first + second.drop_last());
    }
}

pub(crate) proof fn lemma_run_origin_push(ops: Seq<Op>, op: Op, dims: Seq<int>, idx: Seq<int>)
    ensures
        run_origin(ops.push(op), dims, idx) == (match run_dims(ops, dims) {
            Some(d) => match origin(op, d, idx) {
                Some(i) => run_origin(ops, dims, i),
                None => None,
            },
            None => None,
        }),
{
    assert(ops.push(op).drop_last() =~= ops);
}

} // verus!
