//! Reflection padding: a signal is continued past its ends by mirroring it
//! about its first and its last sample, neither of which is repeated.
use vstd::arithmetic::div_mod::lemma_fundamental_div_mod;
use vstd::arithmetic::div_mod::lemma_fundamental_div_mod_converse;
use vstd::prelude::*;

verus! {

/// The sample of a signal of `n` samples that stands at position `idx` of its
/// mirrored continuation, a wave of period `2 * (n - 1)`.
pub open spec fn reflected(idx: int, n: int) -> int {
    if n <= 1 {
        0
    } else {
        let period = 2 * (n - 1);
        let m = idx % period;
        if m < n {
            m
        } else {
            period - m
        }
    }
}

/// The mirrored continuation of `signal`, from `left` positions before its
/// first sample to `right` positions behind its last.
pub open spec fn reflect_padded<T>(signal: Seq<T>, left: int, right: int) -> Seq<T> {
    Seq::new(
        (left + signal.len() + right) as nat,
        |k: int| signal[reflected(k - left, signal.len() as int)],
    )
}

/// Whether padding a signal of `n` samples is defined: a signal of fewer than
/// two samples has nothing to mirror.
pub open spec fn can_pad(n: int, left: int, right: int) -> bool {
    &&& n >= 2 || left == 0 && right == 0
    &&& left + n + right <= isize::MAX
}

proof fn lemma_mod_of_negation(i: int, p: int)
    requires
        p > 0,
    ensures
        (-i) % p == (if i % p == 0 {
            0
        } else {
            p - i % p
        }),
{
    lemma_fundamental_div_mod(i, p);
    let q = i / p;
    if i % p == 0 {
        assert(-i == (-q) * p + 0) by (nonlinear_arith)
            requires
                i == p * q,
        ;
        lemma_fundamental_div_mod_converse(-i, p, -q, 0);
    } else {
        let r = p - i % p;
        assert(-i == (-q - 1) * p + r) by (nonlinear_arith)
            requires
                i == p * q + i % p,
                r == p - i % p,
        ;
        lemma_fundamental_div_mod_converse(-i, p, -q - 1, r);
    }
}

proof fn lemma_mod_of_mirror(i: int, p: int)
    requires
        p > 0,
    ensures
        (p - i) % p == (-i) % p,
{
    lemma_fundamental_div_mod(-i, p);
    let q = (-i) / p;
    assert(p - i == (q + 1) * p + (-i) % p) by (nonlinear_arith)
        requires
            -i == p * q + (-i) % p,
    ;
    lemma_fundamental_div_mod_converse(p - i, p, q + 1, (-i) % p);
}

/// The continuation is symmetric about the first sample.
pub proof fn law_symmetric_about_first(idx: int, n: int)
    requires
        n >= 1,
    ensures
        reflected(-idx, n) == reflected(idx, n),
{
    if n >= 2 {
        lemma_mod_of_negation(idx, 2 * (n - 1));
    }
}

/// The continuation is symmetric about the last sample.
pub proof fn law_symmetric_about_last(idx: int, n: int)
    requires
        n >= 1,
    ensures
        reflected(2 * (n - 1) - idx, n) == reflected(idx, n),
{
    if n >= 2 {
        lemma_mod_of_mirror(idx, 2 * (n - 1));
        law_symmetric_about_first(idx, n);
    }
}

/// Within the signal the continuation is the signal itself.
pub proof fn law_identity_inside(idx: int, n: int)
    requires
        0 <= idx < n,
    ensures
        reflected(idx, n) == idx,
{
    if n >= 2 {
        vstd::arithmetic::div_mod::lemma_small_mod(idx as nat, (2 * (n - 1)) as nat);
    }
}

/// Every position of the continuation shows some sample of the signal.
pub proof fn law_within_signal(idx: int, n: int)
    requires
        n >= 1,
    ensures
        0 <= reflected(idx, n) < n,
{
    if n >= 2 {
        vstd::arithmetic::div_mod::lemma_mod_bound(idx, 2 * (n - 1));
    }
}

/// The padded signal holds the signal, unchanged, between its two margins.
pub proof fn law_padding_keeps_signal<T>(signal: Seq<T>, left: nat, right: nat)
    ensures
        reflect_padded(signal, left as int, right as int).subrange(
            left as int,
            (left + signal.len()) as int,
        ) == signal,
{
    let n = signal.len() as int;
    let kept = reflect_padded(signal, left as int, right as int).subrange(left as int, left + n);
    assert forall|i: int| 0 <= i < n implies kept[i] == signal[i] by {
        law_identity_inside(i, n);
    }
    assert(kept =~= signal);
}

/// The padded signal is symmetric about the first and about the last sample of
/// the signal, as far as it reaches on either side.
pub proof fn law_padding_is_symmetric<T>(signal: Seq<T>, left: nat, right: nat, k: int)
    requires
        signal.len() >= 1,
        0 <= k,
    ensures
        ({
            let padded = reflect_padded(signal, left as int, right as int);
            let last = left + signal.len() - 1;
            &&& padded.len() == left + signal.len() + right
            &&& k <= left && left + k < padded.len() ==> padded[left - k] == padded[left + k]
            &&& k <= last && last + k < padded.len() ==> padded[last - k] == padded[last + k]
        }),
{
    let n = signal.len() as int;
    law_symmetric_about_first(k, n);
    law_symmetric_about_last(n - 1 + k, n);
}

/// Folds a position of the continuation back into a signal of `n` samples.
///
/// A signal of one sample shows it at position zero alone.
pub fn reflect_index(idx: isize, n: usize) -> (r: usize)
    requires
        1 <= n <= isize::MAX,
        n == 1 ==> idx == 0,
        idx != isize::MIN,
        idx >= n || -idx >= n ==> 2 * (n - 1) <= isize::MAX,
    ensures
        r == reflected(idx as int, n as int),
        r < n,
{
    let last: isize = (n - 1) as isize;
    let mut i: isize = idx;
    loop
        invariant
            1 <= n <= isize::MAX,
            last == n - 1,
            n == 1 ==> i == 0,
            i != isize::MIN,
            i >= n || -i >= n ==> 2 * (n - 1) <= isize::MAX,
            reflected(i as int, n as int) == reflected(idx as int, n as int),
        decreases (if i < 0 {
            -i
        } else {
            i as int
        }),
    {
        if i < 0 {
            proof {
                law_symmetric_about_first(i as int, n as int);
            }
            i = -i;
        }
        if i > last {
            proof {
                law_symmetric_about_last(i as int, n as int);
            }
            i = 2 * last - i;
        }
        if i >= 0 && i <= last {
            proof {
                law_identity_inside(i as int, n as int);
            }
            return i as usize;
        }
    }
}

/// Pads `signal` with `left_pad` mirrored samples in front and `right_pad`
/// behind.
pub fn reflect_pad<T: Copy>(signal: &[T], left_pad: usize, right_pad: usize) -> (out: Vec<T>)
    requires
        can_pad(signal@.len() as int, left_pad as int, right_pad as int),
    ensures
        out@ == reflect_padded(signal@, left_pad as int, right_pad as int),
        out@.len() == left_pad + signal@.len() + right_pad,
        forall|k: int|
            0 <= k < out@.len() ==> #[trigger] out@[k] == signal@[reflected(
                k - left_pad,
                signal@.len() as int,
            )],
{
    let n: usize = signal.len();
    let ghost padded = reflect_padded(signal@, left_pad as int, right_pad as int);
    let mut out: Vec<T> = Vec::with_capacity(left_pad + n + right_pad);

    let mut i: usize = 0;
    while i < left_pad
        invariant
            i <= left_pad,
            n == signal@.len(),
            can_pad(n as int, left_pad as int, right_pad as int),
            padded == reflect_padded(signal@, left_pad as int, right_pad as int),
            out@ == padded.take(i as int),
        decreases left_pad - i,
    {
        let idx: usize = reflect_index((left_pad - i) as isize, n);
        proof {
            law_symmetric_about_first(left_pad - i, n as int);
        }
        out.push(signal[idx]);
        assert(out@ =~= padded.take(i + 1));
        i = i + 1;
    }

    let mut j: usize = 0;
    while j < n
        invariant
            j <= n,
            n == signal@.len(),
            padded == reflect_padded(signal@, left_pad as int, right_pad as int),
            out@ == padded.take(left_pad + j),
        decreases n - j,
    {
        proof {
            law_identity_inside(j as int, n as int);
        }
        out.push(signal[j]);
        assert(out@ =~= padded.take(left_pad + j + 1));
        j = j + 1;
    }

    let mut k: usize = 0;
    while k < right_pad
        invariant
            k <= right_pad,
            n == signal@.len(),
            can_pad(n as int, left_pad as int, right_pad as int),
            padded == reflect_padded(signal@, left_pad as int, right_pad as int),
            out@ == padded.take(left_pad + n + k),
        decreases right_pad - k,
    {
        let idx: usize = reflect_index(n as isize - 2 - k as isize, n);
        proof {
            law_symmetric_about_last(n + k, n as int);
        }
        out.push(signal[idx]);
        assert(out@ =~= padded.take(left_pad + n + k + 1));
        k = k + 1;
    }
    assert(out@ =~= padded);
    out
}

} // verus!
