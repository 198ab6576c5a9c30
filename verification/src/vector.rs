//! A fixed-dimension coordinate vector over exact integer scalars.
//!
//! The dimension `N` is part of the type: every value holds exactly `N`
//! components, and all operations combine only vectors of the same `N`.
//! Arithmetic is exact; callers choose a fixed-point scale when their state
//! variables are fractional.

use vstd::prelude::*;

verus! {

/// What a component sequence looks like after lenient construction: the first
/// `n` given components, with missing trailing components defaulting to zero
/// and excess components ignored.
pub open spec fn padded(components: Seq<i64>, n: nat) -> Seq<i64> {
    Seq::new(n, |i: int| if i < components.len() { components[i] } else { 0i64 })
}

/// A component sequence read as mathematical integers.
pub open spec fn as_ints(s: Seq<i64>) -> Seq<int> {
    s.map_values(|x: i64| x as int)
}

/// Componentwise sum of two component sequences.
pub open spec fn seq_add(a: Seq<int>, b: Seq<int>) -> Seq<int> {
    Seq::new(a.len(), |i: int| a[i] + b[i])
}

/// Componentwise difference of two component sequences.
pub open spec fn seq_sub(a: Seq<int>, b: Seq<int>) -> Seq<int> {
    Seq::new(a.len(), |i: int| a[i] - b[i])
}

/// A component sequence with every component multiplied by `k`.
pub open spec fn seq_scale(k: int, a: Seq<int>) -> Seq<int> {
    Seq::new(a.len(), |i: int| a[i] * k)
}

/// The larger of two integers.
pub open spec fn max_val(a: int, b: int) -> int {
    if a >= b {
        a
    } else {
        b
    }
}

/// The smaller of two integers.
pub open spec fn min_val(a: int, b: int) -> int {
    if a <= b {
        a
    } else {
        b
    }
}

/// A point in an `N`-dimensional coordinate space.
///
/// The component count is an invariant of the type (`wf`), not a property of
/// individual values: every constructor establishes it and every operation
/// preserves it. Values are immutable; operations allocate new vectors.
#[derive(Debug, Clone)]
pub struct VectorND<const N: usize> {
    components: Vec<i64>,
}

impl<const N: usize> View for VectorND<N> {
    type V = Seq<i64>;

    closed spec fn view(&self) -> Seq<i64> {
        self.components@
    }
}

impl<const N: usize> VectorND<N> {
    /// The dimension invariant: exactly `N` components.
    pub open spec fn wf(self) -> bool {
        self@.len() == N
    }

    /// The vector with every component equal to the additive identity.
    pub fn origin() -> (r: Self)
        ensures
            r.wf(),
            forall|i: int| 0 <= i < N ==> r@[i] == 0i64,
            as_ints(r@) == Seq::new(N as nat, |i: int| 0int),
    {
        let mut components: Vec<i64> = Vec::new();
        let mut i: usize = 0;
        while i < N
            invariant
                i <= N,
                components@.len() == i,
                forall|j: int| 0 <= j < i ==> components@[j] == 0i64,
            decreases N - i,
        {
            components.push(0i64);
            i = i + 1;
        }
        proof {
            assert(as_ints(components@) =~= Seq::new(N as nat, |i: int| 0int));
        }
        VectorND { components }
    }

    /// The dimensionality of the coordinate space.
    pub fn len() -> (r: usize)
        ensures
            r == N,
    {
        N
    }

    /// Component `index`, zero-indexed. Out-of-range access is a caller
    /// contract violation, ruled out by `requires`.
    pub fn get(&self, index: usize) -> (r: i64)
        requires
            self.wf(),
            index < N,
        ensures
            r == self@[index as int],
    {
        self.components[index]
    }

    /// The components as a plain list, in order.
    pub fn to_vec(&self) -> (r: Vec<i64>)
        requires
            self.wf(),
        ensures
            r@ == self@,
    {
        let mut out: Vec<i64> = Vec::new();
        let mut i: usize = 0;
        while i < N
            invariant
                self.wf(),
                i <= N,
                out@.len() == i,
                forall|j: int| 0 <= j < i ==> out@[j] == self@[j],
            decreases N - i,
        {
            out.push(self.components[i]);
            i = i + 1;
        }
        proof {
            assert(out@ =~= self@);
        }
        out
    }

    /// Lenient construction from a component list: excess components are
    /// ignored, missing trailing components default to zero.
    pub fn from_components(components: &[i64]) -> (r: Self)
        ensures
            r.wf(),
            r@ == padded(components@, N as nat),
    {
        let mut out: Vec<i64> = Vec::new();
        let mut i: usize = 0;
        while i < N
            invariant
                i <= N,
                out@.len() == i,
                forall|j: int| 0 <= j < i ==> out@[j] == padded(components@, N as nat)[j],
            decreases N - i,
        {
            if i < components.len() {
                out.push(components[i]);
            } else {
                out.push(0i64);
            }
            i = i + 1;
        }
        proof {
            assert(out@ =~= padded(components@, N as nat));
        }
        VectorND { components: out }
    }

    /// Componentwise sum. Exact: the caller ensures each componentwise sum
    /// stays in the scalar's range, a machine limit.
    pub fn add(&self, rhs: &Self) -> (r: Self)
        requires
            self.wf(),
            rhs.wf(),
            forall|i: int| 0 <= i < N ==> i64::MIN <= #[trigger] self@[i] + rhs@[i] <= i64::MAX,
        ensures
            r.wf(),
            forall|i: int| 0 <= i < N ==> #[trigger] r@[i] == self@[i] + rhs@[i],
            as_ints(r@) == seq_add(as_ints(self@), as_ints(rhs@)),
    {
        let mut out: Vec<i64> = Vec::new();
        let mut i: usize = 0;
        while i < N
            invariant
                self.wf(),
                rhs.wf(),
                forall|k: int| 0 <= k < N ==> i64::MIN <= #[trigger] self@[k] + rhs@[k] <= i64::MAX,
                i <= N,
                out@.len() == i,
                forall|j: int| 0 <= j < i ==> #[trigger] out@[j] == self@[j] + rhs@[j],
            decreases N - i,
        {
            out.push(self.components[i] + rhs.components[i]);
            i = i + 1;
        }
        proof {
            assert(as_ints(out@) =~= seq_add(as_ints(self@), as_ints(rhs@)));
        }
        VectorND { components: out }
    }

    /// Componentwise difference. Exact, under the same machine limit.
    pub fn sub(&self, rhs: &Self) -> (r: Self)
        requires
            self.wf(),
            rhs.wf(),
            forall|i: int| 0 <= i < N ==> i64::MIN <= #[trigger] self@[i] - rhs@[i] <= i64::MAX,
        ensures
            r.wf(),
            forall|i: int| 0 <= i < N ==> #[trigger] r@[i] == self@[i] - rhs@[i],
            as_ints(r@) == seq_sub(as_ints(self@), as_ints(rhs@)),
    {
        let mut out: Vec<i64> = Vec::new();
        let mut i: usize = 0;
        while i < N
            invariant
                self.wf(),
                rhs.wf(),
                forall|k: int| 0 <= k < N ==> i64::MIN <= #[trigger] self@[k] - rhs@[k] <= i64::MAX,
                i <= N,
                out@.len() == i,
                forall|j: int| 0 <= j < i ==> #[trigger] out@[j] == self@[j] - rhs@[j],
            decreases N - i,
        {
            out.push(self.components[i] - rhs.components[i]);
            i = i + 1;
        }
        proof {
            assert(as_ints(out@) =~= seq_sub(as_ints(self@), as_ints(rhs@)));
        }
        VectorND { components: out }
    }

    /// Componentwise product. Exact, under the same machine limit.
    pub fn mul(&self, rhs: &Self) -> (r: Self)
        requires
            self.wf(),
            rhs.wf(),
            forall|i: int| 0 <= i < N ==> i64::MIN <= #[trigger] self@[i] * rhs@[i] <= i64::MAX,
        ensures
            r.wf(),
            forall|i: int| 0 <= i < N ==> #[trigger] r@[i] == self@[i] * rhs@[i],
    {
        let mut out: Vec<i64> = Vec::new();
        let mut i: usize = 0;
        while i < N
            invariant
                self.wf(),
                rhs.wf(),
                forall|k: int| 0 <= k < N ==> i64::MIN <= #[trigger] self@[k] * rhs@[k] <= i64::MAX,
                i <= N,
                out@.len() == i,
                forall|j: int| 0 <= j < i ==> #[trigger] out@[j] == self@[j] * rhs@[j],
            decreases N - i,
        {
            out.push(self.components[i] * rhs.components[i]);
            i = i + 1;
        }
        VectorND { components: out }
    }

    /// Scalar product: every component multiplied by `k`. Exact, under the
    /// same machine limit.
    pub fn scale(&self, k: i64) -> (r: Self)
        requires
            self.wf(),
            forall|i: int| 0 <= i < N ==> i64::MIN <= #[trigger] (self@[i] * k) <= i64::MAX,
        ensures
            r.wf(),
            forall|i: int| 0 <= i < N ==> #[trigger] r@[i] == self@[i] * k,
            as_ints(r@) == seq_scale(k as int, as_ints(self@)),
    {
        let mut out: Vec<i64> = Vec::new();
        let mut i: usize = 0;
        while i < N
            invariant
                self.wf(),
                forall|j: int| 0 <= j < N ==> i64::MIN <= #[trigger] (self@[j] * k) <= i64::MAX,
                i <= N,
                out@.len() == i,
                forall|j: int| 0 <= j < i ==> #[trigger] out@[j] == self@[j] * k,
            decreases N - i,
        {
            out.push(self.components[i] * k);
            i = i + 1;
        }
        proof {
            assert(as_ints(out@) =~= seq_scale(k as int, as_ints(self@)));
        }
        VectorND { components: out }
    }

    /// The vector whose component `i` is the larger of `p1`'s and `p2`'s
    /// component `i` — a componentwise combination over the whole `0..N`
    /// range, never one whole operand.
    pub fn from_biggest_components(p1: &Self, p2: &Self) -> (r: Self)
        requires
            p1.wf(),
            p2.wf(),
        ensures
            r.wf(),
            forall|i: int| 0 <= i < N ==> #[trigger] r@[i] == max_val(p1@[i] as int, p2@[i] as int),
    {
        let mut out: Vec<i64> = Vec::new();
        let mut i: usize = 0;
        while i < N
            invariant
                p1.wf(),
                p2.wf(),
                i <= N,
                out@.len() == i,
                forall|j: int| 0 <= j < i ==> #[trigger] out@[j] == max_val(p1@[j] as int, p2@[j] as int),
            decreases N - i,
        {
            if p1.components[i] >= p2.components[i] {
                out.push(p1.components[i]);
            } else {
                out.push(p2.components[i]);
            }
            i = i + 1;
        }
        VectorND { components: out }
    }

    /// The vector whose component `i` is the smaller of `p1`'s and `p2`'s
    /// component `i`, again combined independently per index.
    pub fn from_smallest_components(p1: &Self, p2: &Self) -> (r: Self)
        requires
            p1.wf(),
            p2.wf(),
        ensures
            r.wf(),
            forall|i: int| 0 <= i < N ==> #[trigger] r@[i] == min_val(p1@[i] as int, p2@[i] as int),
    {
        let mut out: Vec<i64> = Vec::new();
        let mut i: usize = 0;
        while i < N
            invariant
                p1.wf(),
                p2.wf(),
                i <= N,
                out@.len() == i,
                forall|j: int| 0 <= j < i ==> #[trigger] out@[j] == min_val(p1@[j] as int, p2@[j] as int),
            decreases N - i,
        {
            if p1.components[i] <= p2.components[i] {
                out.push(p1.components[i]);
            } else {
                out.push(p2.components[i]);
            }
            i = i + 1;
        }
        VectorND { components: out }
    }
}

/// Componentwise addition and subtraction are mutual inverses: adding a
/// vector and then subtracting it again returns exactly the original
/// components. Exact arithmetic makes this an equality, with no tolerance.
pub proof fn lemma_add_sub_inverse(a: Seq<int>, b: Seq<int>)
    requires
        a.len() == b.len(),
    ensures
        seq_sub(seq_add(a, b), b) == a,
{
    assert(seq_sub(seq_add(a, b), b) =~= a);
}

/// Scaling by one is the identity on the components.
pub proof fn lemma_scale_one(a: Seq<int>)
    ensures
        seq_scale(1, a) == a,
{
    assert(seq_scale(1, a) =~= a);
}

/// Scaling by zero yields the zero vector's components.
pub proof fn lemma_scale_zero(a: Seq<int>)
    ensures
        seq_scale(0, a) == Seq::new(a.len(), |i: int| 0int),
{
    assert(seq_scale(0, a) =~= Seq::new(a.len(), |i: int| 0int));
}

/// Rebuilding a vector from exactly its own component sequence changes
/// nothing: lenient construction applied to a sequence that already has the
/// target dimension is the identity.
pub proof fn lemma_from_components_round_trip(s: Seq<i64>, n: nat)
    requires
        s.len() == n,
    ensures
        padded(s, n) == s,
{
    assert(padded(s, n) =~= s);
}

} // verus!
