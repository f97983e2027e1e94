//! The orthonormalizer: the modified Gram-Schmidt process over an ordered
//! basis of vectors.
//!
//! The output has the length of the input; entry `0` is the normalization of
//! input entry `0`, and every later entry `i` is the normalization of input
//! entry `i` minus the left-to-right sum of its projections onto the already
//! orthonormalized entries `0..i` (the modified formulation: projections use
//! prior outputs, never raw inputs). The algorithm does no pivoting and no
//! dependency detection: a linearly dependent entry drives the
//! pre-normalization difference toward the zero vector, and the division by
//! its (near-)zero length propagates infinity or NaN components.
//!
//! Both calling conventions, in place and pure, are pinned to the same spec
//! function [`spec_gram_schmidt`], so they cannot diverge.

use vstd::prelude::*;

use crate::scalar::FloatOps;
use crate::vector::{
    spec_dot, spec_normalize, spec_scale, spec_sub, spec_sum, views, Vector,
};

verus! {

/// The projections of `v` onto each already orthonormalized output in `outs`,
/// in order: entry `j` is `outs[j]` scaled by the coefficient
/// `dot(outs[j], v)`.
pub open spec fn spec_projections<F: FloatOps>(outs: Seq<Seq<u64>>, v: Seq<u64>) -> Seq<Seq<u64>> {
    Seq::new(outs.len(), |j: int| spec_scale::<F>(outs[j], spec_dot::<F>(outs[j], v)))
}

/// The projection sum subtracted from `v`: the projections of `v` onto the
/// prior outputs, folded left to right from the zero vector.
pub open spec fn spec_proj_sum<F: FloatOps>(outs: Seq<Seq<u64>>, v: Seq<u64>) -> Seq<u64> {
    spec_sum::<F>(spec_projections::<F>(outs, v), v.len())
}

/// One step of the process: the value that overwrites (or is emitted for)
/// the entry whose prior outputs are `outs` and whose input value is `v`.
/// The first entry is simply normalized; every later entry first has its
/// projection sum subtracted.
pub open spec fn spec_gs_step<F: FloatOps>(outs: Seq<Seq<u64>>, v: Seq<u64>) -> Seq<u64> {
    if outs.len() == 0 {
        spec_normalize::<F>(v)
    } else {
        spec_normalize::<F>(spec_sub::<F>(v, spec_proj_sum::<F>(outs, v)))
    }
}

/// The whole process: entry `i` of the result is the step applied to the
/// first `i` results and input entry `i`, in increasing index order.
pub open spec fn spec_gram_schmidt<F: FloatOps>(basis: Seq<Seq<u64>>) -> Seq<Seq<u64>>
    decreases basis.len(),
{
    if basis.len() == 0 {
        Seq::empty()
    } else {
        let prev = spec_gram_schmidt::<F>(basis.drop_last());
        prev.push(spec_gs_step::<F>(prev, basis.last()))
    }
}

/// The output always has exactly the length of the input.
pub proof fn lemma_gram_schmidt_len<F: FloatOps>(basis: Seq<Seq<u64>>)
    ensures
        spec_gram_schmidt::<F>(basis).len() == basis.len(),
    decreases basis.len(),
{
    if basis.len() > 0 {
        lemma_gram_schmidt_len::<F>(basis.drop_last());
    }
}

/// Orthonormalizing a prefix of the input yields the matching prefix of the
/// output: the process walks the basis strictly in increasing index order.
pub proof fn lemma_gram_schmidt_prefix<F: FloatOps>(basis: Seq<Seq<u64>>, k: int)
    requires
        0 <= k <= basis.len(),
    ensures
        spec_gram_schmidt::<F>(basis.take(k)) == spec_gram_schmidt::<F>(basis).take(k),
    decreases basis.len(),
{
    lemma_gram_schmidt_len::<F>(basis);
    if k == basis.len() {
        assert(basis.take(k) =~= basis);
        assert(spec_gram_schmidt::<F>(basis).take(k) =~= spec_gram_schmidt::<F>(basis));
    } else {
        let init = basis.drop_last();
        lemma_gram_schmidt_len::<F>(init);
        lemma_gram_schmidt_prefix::<F>(init, k);
        assert(basis.take(k) =~= init.take(k));
        assert(spec_gram_schmidt::<F>(basis).take(k) =~= spec_gram_schmidt::<F>(init).take(k));
    }
}

/// Law: output entry `i` is a function of input entries `0..=i` alone. Two
/// bases that agree up to and including index `i` get identical outputs at
/// index `i`, whatever their later entries hold.
pub proof fn lemma_output_depends_on_prefix<F: FloatOps>(
    b1: Seq<Seq<u64>>,
    b2: Seq<Seq<u64>>,
    i: int,
)
    requires
        0 <= i < b1.len(),
        i < b2.len(),
        b1.take(i + 1) == b2.take(i + 1),
    ensures
        spec_gram_schmidt::<F>(b1)[i] == spec_gram_schmidt::<F>(b2)[i],
{
    lemma_gram_schmidt_len::<F>(b1);
    lemma_gram_schmidt_len::<F>(b2);
    lemma_gram_schmidt_prefix::<F>(b1, i + 1);
    lemma_gram_schmidt_prefix::<F>(b2, i + 1);
    assert(spec_gram_schmidt::<F>(b1).take(i + 1)[i] == spec_gram_schmidt::<F>(b1)[i]);
    assert(spec_gram_schmidt::<F>(b2).take(i + 1)[i] == spec_gram_schmidt::<F>(b2)[i]);
}

/// Law: an empty basis orthonormalizes to an empty output, with no
/// computation performed.
pub proof fn lemma_gram_schmidt_empty<F: FloatOps>()
    ensures
        spec_gram_schmidt::<F>(Seq::<Seq<u64>>::empty()) == Seq::<Seq<u64>>::empty(),
{
}

/// Law: a one-vector basis orthonormalizes to the one-vector output holding
/// the normalization of that vector.
pub proof fn lemma_gram_schmidt_single<F: FloatOps>(v: Seq<u64>)
    ensures
        spec_gram_schmidt::<F>(seq![v]) == seq![spec_normalize::<F>(v)],
{
    let s = seq![v];
    assert(s.drop_last() =~= Seq::<Seq<u64>>::empty());
    lemma_gram_schmidt_empty::<F>();
    let prev = spec_gram_schmidt::<F>(s.drop_last());
    assert(prev.len() == 0);
    assert(s.last() == v);
    assert(spec_gram_schmidt::<F>(s) == prev.push(spec_gs_step::<F>(prev, v)));
    assert(spec_gs_step::<F>(prev, v) == spec_normalize::<F>(v));
    assert(prev.push(spec_normalize::<F>(v)) =~= seq![spec_normalize::<F>(v)]);
}

impl<const N: usize> Vector<N> {
    /// Orthonormalizes `basis` in place, overwriting each slot `i`, in
    /// strictly increasing index order, with the step value computed from the
    /// final values already in slots `0..i` and the value slot `i` held on
    /// entry; slots above `i` are never touched before their turn.
    pub fn gram_schmidt<F: FloatOps>(basis: &mut Vec<Vector<N>>)
        requires
            forall|k: int| 0 <= k < old(basis)@.len() ==> (#[trigger] old(basis)@[k]).wf(),
        ensures
            views(final(basis)@) == spec_gram_schmidt::<F>(views(old(basis)@)),
            final(basis)@.len() == old(basis)@.len(),
            forall|k: int| 0 <= k < final(basis)@.len() ==> (#[trigger] final(basis)@[k]).wf(),
    {
        let ghost orig: Seq<Vector<N>> = basis@;
        let len = basis.len();
        let mut i: usize = 0;
        while i < len
            invariant
                i <= len,
                basis@.len() == len,
                orig.len() == len,
                forall|k: int| 0 <= k < len ==> (#[trigger] orig[k]).wf(),
                forall|k: int| i <= k < len ==> basis@[k] == orig[k],
                forall|k: int| 0 <= k < i ==> (#[trigger] basis@[k]).wf(),
                views(basis@).take(i as int) == spec_gram_schmidt::<F>(views(orig).take(i as int)),
            decreases len - i,
        {
            let ghost before: Seq<Vector<N>> = basis@;
            let ghost outs: Seq<Seq<u64>> = views(before).take(i as int);
            let ghost v: Seq<u64> = before[i as int]@;
            proof {
                assert(basis@[i as int] == orig[i as int]);
                assert(orig[i as int].wf());
            }
            let c: Vector<N> = if i == 0 {
                let v0 = &basis[0];
                v0.normalized::<F>()
            } else {
                let ghost projs: Seq<Seq<u64>> = spec_projections::<F>(outs, v);
                let mut sum = Vector::<N>::empty();
                let mut j: usize = 0;
                while j < i
                    invariant
                        j <= i,
                        i < len,
                        basis@ == before,
                        basis@.len() == len,
                        orig.len() == len,
                        forall|k: int| 0 <= k < i ==> (#[trigger] basis@[k]).wf(),
                        forall|k: int| i <= k < len ==> basis@[k] == orig[k],
                        forall|k: int| 0 <= k < len ==> (#[trigger] orig[k]).wf(),
                        outs == views(basis@).take(i as int),
                        v == basis@[i as int]@,
                        projs == spec_projections::<F>(outs, v),
                        sum.wf(),
                        sum@ == spec_sum::<F>(projs.take(j as int), N as nat),
                    decreases i - j,
                {
                    proof {
                        assert(basis@[j as int].wf());
                        assert(basis@[i as int] == orig[i as int]);
                        assert(orig[i as int].wf());
                    }
                    let coeff = Vector::<N>::dot_product::<F>(&basis[j], &basis[i]);
                    let proj = (&basis[j]).scale::<F>(coeff);
                    sum = sum.add::<F>(&proj);
                    proof {
                        assert(outs[j as int] == basis@[j as int]@);
                        assert(projs[j as int] == spec_scale::<F>(
                            basis@[j as int]@,
                            spec_dot::<F>(basis@[j as int]@, v),
                        ));
                        assert(projs.take(j + 1).drop_last() =~= projs.take(j as int));
                        assert(projs.take(j + 1).last() == projs[j as int]);
                    }
                    j = j + 1;
                }
                proof {
                    assert(projs.take(i as int) =~= projs);
                    assert(basis@[i as int]@.len() == N as nat);
                    assert(sum@ == spec_proj_sum::<F>(outs, v));
                }
                let diff = (&basis[i]).sub::<F>(&sum);
                diff.normalized::<F>()
            };
            proof {
                assert(c@ == spec_gs_step::<F>(outs, v));
            }
            basis.set(i, c);
            proof {
                let prev = spec_gram_schmidt::<F>(views(orig).take(i as int));
                let next_in = views(orig).take(i + 1);
                assert(next_in.drop_last() =~= views(orig).take(i as int));
                assert(next_in.last() == orig[i as int]@);
                assert(orig[i as int]@ == v);
                assert(spec_gram_schmidt::<F>(next_in) == prev.push(spec_gs_step::<F>(prev, v)));
                assert(views(basis@).take(i + 1) =~= outs.push(c@));
                assert(views(basis@).take(i + 1) == spec_gram_schmidt::<F>(views(orig).take(i + 1)));
            }
            i = i + 1;
        }
        proof {
            assert(views(basis@).take(len as int) =~= views(basis@));
            assert(views(orig).take(len as int) =~= views(orig));
        }
    }

    /// Orthonormalizes a basis in the pure convention: consumes the input
    /// sequence and returns the newly computed output sequence of the same
    /// length. It routes through the same in-place code, so the two
    /// conventions are pinned to the same spec function and produce
    /// identical results on identical input.
    pub fn gram_schmidt_pure<F: FloatOps>(basis: Vec<Vector<N>>) -> (r: Vec<Vector<N>>)
        requires
            forall|k: int| 0 <= k < basis@.len() ==> (#[trigger] basis@[k]).wf(),
        ensures
            views(r@) == spec_gram_schmidt::<F>(views(basis@)),
            r@.len() == basis@.len(),
            forall|k: int| 0 <= k < r@.len() ==> (#[trigger] r@[k]).wf(),
    {
        let mut out = basis;
        Self::gram_schmidt::<F>(&mut out);
        out
    }
}

} // verus!
