//! The vector value type: a fixed-dimension tuple of scalars.
//!
//! A `Vector<N>` holds exactly `N` components, each the bit pattern of a
//! double. All componentwise arithmetic is verified against spec functions
//! stated over the scalar operations of a [`FloatOps`] implementation `F`;
//! sums fold strictly left to right, in sequence order, so results are
//! bit-reproducible.

use vstd::prelude::*;

use crate::scalar::FloatOps;

verus! {

/// The bit pattern of positive zero, the additive identity that sums and dot
/// products fold from.
pub open spec fn zero_bits() -> u64 {
    0u64
}

/// An ordered, fixed-length tuple of `N` double-precision components, each
/// carried as its bit pattern. Two vectors with equal components are
/// interchangeable; there is no identity beyond value equality.
pub struct Vector<const N: usize> {
    components: Vec<u64>,
}

/// A three-dimensional vector.
pub type Vector3 = Vector<3>;

/// A four-dimensional vector.
pub type Vector4 = Vector<4>;

impl<const N: usize> View for Vector<N> {
    type V = Seq<u64>;

    closed spec fn view(&self) -> Seq<u64> {
        self.components@
    }
}

/// The all-zero sequence of `n` components: the identity element that vector
/// summation folds from.
pub open spec fn zero_vec(n: nat) -> Seq<u64> {
    Seq::new(n, |i: int| zero_bits())
}

/// Componentwise addition.
pub open spec fn spec_add<F: FloatOps>(a: Seq<u64>, b: Seq<u64>) -> Seq<u64> {
    Seq::new(a.len(), |i: int| F::add_bits(a[i], b[i]))
}

/// Componentwise subtraction.
pub open spec fn spec_sub<F: FloatOps>(a: Seq<u64>, b: Seq<u64>) -> Seq<u64> {
    Seq::new(a.len(), |i: int| F::sub_bits(a[i], b[i]))
}

/// Componentwise multiplication by the scalar `k`.
pub open spec fn spec_scale<F: FloatOps>(v: Seq<u64>, k: u64) -> Seq<u64> {
    Seq::new(v.len(), |i: int| F::mul_bits(v[i], k))
}

/// Componentwise division by the scalar `k`.
pub open spec fn spec_div<F: FloatOps>(v: Seq<u64>, k: u64) -> Seq<u64> {
    Seq::new(v.len(), |i: int| F::div_bits(v[i], k))
}

/// The dot product: a strict left-to-right fold, starting from zero, of the
/// componentwise products, so the rounding order is pinned down.
pub open spec fn spec_dot<F: FloatOps>(a: Seq<u64>, b: Seq<u64>) -> u64
    decreases a.len(),
{
    if a.len() == 0 {
        zero_bits()
    } else {
        F::add_bits(
            spec_dot::<F>(a.drop_last(), b.drop_last()),
            F::mul_bits(a.last(), b.last()),
        )
    }
}

/// The Euclidean length: the square root of the dot product of a vector with
/// itself.
pub open spec fn spec_length<F: FloatOps>(v: Seq<u64>) -> u64 {
    F::sqrt_bits(spec_dot::<F>(v, v))
}

/// Normalization: every component divided by the vector's length, the length
/// being taken of the vector as it was before any component changed. A zero
/// or near-zero length is not detected: the division then produces the
/// infinity or NaN patterns of the scalar arithmetic, which propagate.
pub open spec fn spec_normalize<F: FloatOps>(v: Seq<u64>) -> Seq<u64> {
    spec_div::<F>(v, spec_length::<F>(v))
}

/// Each component squared and then multiplied by the matching component of
/// `w`, in that order.
pub open spec fn spec_scale_with_dot<F: FloatOps>(v: Seq<u64>, w: Seq<u64>) -> Seq<u64> {
    Seq::new(v.len(), |i: int| F::mul_bits(F::mul_bits(v[i], v[i]), w[i]))
}

/// The views of a sequence of vectors, in order.
pub open spec fn views<const N: usize>(s: Seq<Vector<N>>) -> Seq<Seq<u64>> {
    Seq::new(s.len(), |i: int| s[i]@)
}

/// Summation of a sequence of vectors of dimension `n`: a strict left-to-right
/// fold with componentwise addition, starting from the zero vector.
pub open spec fn spec_sum<F: FloatOps>(vs: Seq<Seq<u64>>, n: nat) -> Seq<u64>
    decreases vs.len(),
{
    if vs.len() == 0 {
        zero_vec(n)
    } else {
        spec_add::<F>(spec_sum::<F>(vs.drop_last(), n), vs.last())
    }
}

impl<const N: usize> Vector<N> {
    /// A vector is well formed when it holds exactly `N` components.
    pub open spec fn wf(&self) -> bool {
        self@.len() == N
    }

    /// Constructs a vector from exactly `N` components.
    pub fn new(components: Vec<u64>) -> (v: Vector<N>)
        requires
            components@.len() == N,
        ensures
            v@ == components@,
            v.wf(),
    {
        Vector { components }
    }

    /// The zero vector, the identity element for addition.
    pub fn empty() -> (v: Vector<N>)
        ensures
            v@ == zero_vec(N as nat),
            v.wf(),
    {
        let mut components: Vec<u64> = Vec::new();
        let mut i: usize = 0;
        while i < N
            invariant
                i <= N,
                components@.len() == i,
                forall|k: int| 0 <= k < i ==> components@[k] == zero_bits(),
            decreases N - i,
        {
            components.push(0u64);
            i = i + 1;
        }
        proof {
            assert(components@ =~= zero_vec(N as nat));
        }
        Vector { components }
    }

    /// Indexed read access to component `index`.
    pub fn get_component(&self, index: usize) -> (r: u64)
        requires
            self.wf(),
            index < N,
        ensures
            r == self@[index as int],
    {
        self.components[index]
    }

    /// Componentwise addition.
    pub fn add<F: FloatOps>(&self, rhs: &Vector<N>) -> (r: Vector<N>)
        requires
            self.wf(),
            rhs.wf(),
        ensures
            r@ == spec_add::<F>(self@, rhs@),
            r.wf(),
    {
        let mut components: Vec<u64> = Vec::new();
        let mut i: usize = 0;
        while i < N
            invariant
                i <= N,
                self.wf(),
                rhs.wf(),
                components@.len() == i,
                forall|k: int| 0 <= k < i ==> components@[k] == F::add_bits(self@[k], rhs@[k]),
            decreases N - i,
        {
            components.push(F::add(self.components[i], rhs.components[i]));
            i = i + 1;
        }
        proof {
            assert(components@ =~= spec_add::<F>(self@, rhs@));
        }
        Vector { components }
    }

    /// Componentwise subtraction.
    pub fn sub<F: FloatOps>(&self, rhs: &Vector<N>) -> (r: Vector<N>)
        requires
            self.wf(),
            rhs.wf(),
        ensures
            r@ == spec_sub::<F>(self@, rhs@),
            r.wf(),
    {
        let mut components: Vec<u64> = Vec::new();
        let mut i: usize = 0;
        while i < N
            invariant
                i <= N,
                self.wf(),
                rhs.wf(),
                components@.len() == i,
                forall|k: int| 0 <= k < i ==> components@[k] == F::sub_bits(self@[k], rhs@[k]),
            decreases N - i,
        {
            components.push(F::sub(self.components[i], rhs.components[i]));
            i = i + 1;
        }
        proof {
            assert(components@ =~= spec_sub::<F>(self@, rhs@));
        }
        Vector { components }
    }

    /// Componentwise multiplication by the scalar `lambda`.
    pub fn scale<F: FloatOps>(&self, lambda: u64) -> (r: Vector<N>)
        requires
            self.wf(),
        ensures
            r@ == spec_scale::<F>(self@, lambda),
            r.wf(),
    {
        let mut components: Vec<u64> = Vec::new();
        let mut i: usize = 0;
        while i < N
            invariant
                i <= N,
                self.wf(),
                components@.len() == i,
                forall|k: int| 0 <= k < i ==> components@[k] == F::mul_bits(self@[k], lambda),
            decreases N - i,
        {
            components.push(F::mul(self.components[i], lambda));
            i = i + 1;
        }
        proof {
            assert(components@ =~= spec_scale::<F>(self@, lambda));
        }
        Vector { components }
    }

    /// Componentwise division by the scalar `lambda`. Division by a zero
    /// scalar is not detected; the components become the infinity or NaN
    /// patterns that the scalar arithmetic yields.
    pub fn div_scalar<F: FloatOps>(&self, lambda: u64) -> (r: Vector<N>)
        requires
            self.wf(),
        ensures
            r@ == spec_div::<F>(self@, lambda),
            r.wf(),
    {
        let mut components: Vec<u64> = Vec::new();
        let mut i: usize = 0;
        while i < N
            invariant
                i <= N,
                self.wf(),
                components@.len() == i,
                forall|k: int| 0 <= k < i ==> components@[k] == F::div_bits(self@[k], lambda),
            decreases N - i,
        {
            components.push(F::div(self.components[i], lambda));
            i = i + 1;
        }
        proof {
            assert(components@ =~= spec_div::<F>(self@, lambda));
        }
        Vector { components }
    }

    /// The dot product of `v1` and `v2`: the componentwise products summed
    /// left to right, starting from zero.
    pub fn dot_product<F: FloatOps>(v1: &Vector<N>, v2: &Vector<N>) -> (r: u64)
        requires
            v1.wf(),
            v2.wf(),
        ensures
            r == spec_dot::<F>(v1@, v2@),
    {
        let mut sum: u64 = 0u64;
        let mut i: usize = 0;
        while i < N
            invariant
                i <= N,
                v1.wf(),
                v2.wf(),
                sum == spec_dot::<F>(v1@.take(i as int), v2@.take(i as int)),
            decreases N - i,
        {
            let prod = F::mul(v1.components[i], v2.components[i]);
            sum = F::add(sum, prod);
            proof {
                assert(v1@.take(i + 1).drop_last() =~= v1@.take(i as int));
                assert(v2@.take(i + 1).drop_last() =~= v2@.take(i as int));
            }
            i = i + 1;
        }
        proof {
            assert(v1@.take(N as int) =~= v1@);
            assert(v2@.take(N as int) =~= v2@);
        }
        sum
    }

    /// The Euclidean length: the square root of the dot product of the vector
    /// with itself.
    pub fn length<F: FloatOps>(&self) -> (r: u64)
        requires
            self.wf(),
        ensures
            r == spec_length::<F>(self@),
    {
        F::sqrt(Self::dot_product::<F>(self, self))
    }

    /// Normalization, returning a new vector: the vector divided by its own
    /// length. A linearly dependent or zero input gives a zero or near-zero
    /// length, and the division then propagates infinity or NaN patterns
    /// rather than raising an error.
    pub fn normalized<F: FloatOps>(&self) -> (r: Vector<N>)
        requires
            self.wf(),
        ensures
            r@ == spec_normalize::<F>(self@),
            r.wf(),
    {
        let len = self.length::<F>();
        self.div_scalar::<F>(len)
    }

    /// Normalization in place: overwrites the vector with its normalized
    /// value, dividing every component by the length the vector had on entry.
    pub fn normalize<F: FloatOps>(&mut self)
        requires
            old(self).wf(),
        ensures
            final(self)@ == spec_normalize::<F>(old(self)@),
            final(self).wf(),
    {
        let r = self.normalized::<F>();
        *self = r;
    }

    /// Overwrites each component with its own square times the matching
    /// component of `v2`, in that order of multiplication.
    pub fn scale_with_dot_prod<F: FloatOps>(&mut self, v2: &Vector<N>)
        requires
            old(self).wf(),
            v2.wf(),
        ensures
            final(self)@ == spec_scale_with_dot::<F>(old(self)@, v2@),
            final(self).wf(),
    {
        let ghost orig: Seq<u64> = self@;
        let mut i: usize = 0;
        while i < N
            invariant
                i <= N,
                v2.wf(),
                self@.len() == N,
                forall|k: int| 0 <= k < i ==> self@[k] == F::mul_bits(
                    F::mul_bits(orig[k], orig[k]),
                    v2@[k],
                ),
                forall|k: int| i <= k < N ==> self@[k] == orig[k],
            decreases N - i,
        {
            let c = self.components[i];
            let sq = F::mul(c, c);
            let r = F::mul(sq, v2.components[i]);
            self.components.set(i, r);
            i = i + 1;
        }
        proof {
            assert(self@ =~= spec_scale_with_dot::<F>(orig, v2@));
        }
    }

    /// Sums a sequence of vectors by a strict left-to-right fold with
    /// componentwise addition, starting from the zero vector, so the result
    /// is bit-reproducible.
    pub fn sum_vectors<F: FloatOps>(vs: &Vec<Vector<N>>) -> (r: Vector<N>)
        requires
            forall|k: int| 0 <= k < vs@.len() ==> (#[trigger] vs@[k]).wf(),
        ensures
            r@ == spec_sum::<F>(views(vs@), N as nat),
            r.wf(),
    {
        let mut sum = Self::empty();
        let mut i: usize = 0;
        while i < vs.len()
            invariant
                i <= vs@.len(),
                forall|k: int| 0 <= k < vs@.len() ==> (#[trigger] vs@[k]).wf(),
                sum.wf(),
                sum@ == spec_sum::<F>(views(vs@).take(i as int), N as nat),
            decreases vs@.len() - i,
        {
            sum = sum.add::<F>(&vs[i]);
            proof {
                assert(views(vs@).take(i + 1).drop_last() =~= views(vs@).take(i as int));
                assert(views(vs@).take(i + 1).last() == vs@[i as int]@);
            }
            i = i + 1;
        }
        proof {
            assert(views(vs@).take(vs@.len() as int) =~= views(vs@));
        }
        sum
    }
}

} // verus!
