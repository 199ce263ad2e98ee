//! A point stored as an array of coordinates.

use vstd::prelude::*;
use crate::point::Point;
use crate::scalar::{zero, Scalar};

verus! {

/// A point of `N` coordinates of type `T`.
#[derive(Debug, Copy, Clone)]
pub struct PointN<T, const N: usize>(pub [T; N]);

impl<T, const N: usize> View for PointN<T, N> {
    type V = Seq<T>;

    open spec fn view(&self) -> Seq<T> {
        self.0@
    }
}

/// The point whose coordinates are `coords`, which has `N` entries.
pub open spec fn with_coords<T, const N: usize>(coords: Seq<T>) -> PointN<T, N> {
    choose|p: PointN<T, N>| p@ == coords
}

/// The running sum `0 + s[0]*s[0] + ... + s[n-1]*s[n-1]`, added in that order.
pub open spec fn sum_squares<T: Scalar>(s: Seq<T>, n: nat) -> T
    decreases n,
{
    if n == 0 {
        zero::<T>()
    } else {
        sum_squares(s, (n - 1) as nat).add_spec(s[n - 1].mul_spec(s[n - 1]))
    }
}

/// A point is determined by its coordinates.
pub proof fn lemma_with_coords<T, const N: usize>(p: PointN<T, N>)
    ensures
        with_coords::<T, N>(p@) == p,
{
    let w = with_coords::<T, N>(p@);
    assert(w@ == p@);
    assert(w.0 =~= p.0);
}

impl<T, const N: usize> PointN<T, N> {
    /// The point with the coordinates `array`.
    pub fn new(array: [T; N]) -> (r: Self)
        ensures
            r.0 == array,
            r@ == array@,
    {
        PointN(array)
    }
}

impl<T: Scalar, const N: usize> PointN<T, N> {
    /// The coordinates of `self + rhs`.
    pub open spec fn sum_coords(self, rhs: Self) -> Seq<T> {
        Seq::new(N as nat, |i: int| self@[i].add_spec(rhs@[i]))
    }

    /// The coordinates of `self - rhs`.
    pub open spec fn difference_coords(self, rhs: Self) -> Seq<T> {
        Seq::new(N as nat, |i: int| self@[i].sub_spec(rhs@[i]))
    }

    /// The coordinates of `self` scaled by `factor`.
    pub open spec fn scaled_coords(self, factor: T) -> Seq<T> {
        Seq::new(N as nat, |i: int| self@[i].mul_spec(factor))
    }
}

impl<T: Scalar, const N: usize> PointN<T, N> {
    /// Whether the two points are equal in every coordinate.
    pub open spec fn eq_spec(self, other: Self) -> bool {
        forall|i: int| 0 <= i < N ==> (#[trigger] self@[i]).eq_spec(other@[i])
    }

    /// Tests whether the two points are equal in every coordinate.
    pub fn eq(&self, other: &Self) -> (r: bool)
        ensures
            r == self.eq_spec(*other),
    {
        let mut i: usize = 0;
        while i < N
            invariant
                i <= N,
                forall|k: int| 0 <= k < i ==> (#[trigger] self@[k]).eq_spec(other@[k]),
            decreases N - i,
        {
            if !self.0[i].eq(other.0[i]) {
                assert(!self@[i as int].eq_spec(other@[i as int]));
                return false;
            }
            i += 1;
        }
        true
    }
}

impl<T: Scalar, const N: usize> Default for PointN<T, N> {
    /// The origin: every coordinate is zero.
    fn default() -> (r: Self)
        ensures
            r@ == Seq::new(N as nat, |i: int| zero::<T>()),
    {
        let r = PointN([T::from_usize(0);N]);
        assert(r@ =~= Seq::new(N as nat, |i: int| zero::<T>()));
        r
    }
}

impl<T: Scalar, const N: usize> Point for PointN<T, N> {
    type Scalar = T;

    open spec fn dim_spec() -> usize {
        N
    }

    open spec fn add_spec(self, rhs: Self) -> Self {
        with_coords(self.sum_coords(rhs))
    }

    open spec fn sub_spec(self, rhs: Self) -> Self {
        with_coords(self.difference_coords(rhs))
    }

    open spec fn scale_spec(self, factor: T) -> Self {
        with_coords(self.scaled_coords(factor))
    }

    open spec fn axis_spec(self, index: int) -> T {
        self@[index]
    }

    open spec fn squared_length_spec(self) -> T {
        sum_squares(self@, N as nat)
    }

    fn dim() -> (r: usize) {
        N
    }

    fn add(self, rhs: Self) -> (r: Self)
        ensures
            r@ == self.sum_coords(rhs),
    {
        let mut coords = self.0;
        let mut i: usize = 0;
        while i < N
            invariant
                i <= N,
                forall|k: int| 0 <= k < i ==> coords@[k] == self@[k].add_spec(rhs@[k]),
            decreases N - i,
        {
            coords[i] = self.0[i].add(rhs.0[i]);
            i += 1;
        }
        let r = PointN(coords);
        proof {
            assert(r@ =~= self.sum_coords(rhs));
            lemma_with_coords(r);
        }
        r
    }

    fn sub(self, rhs: Self) -> (r: Self)
        ensures
            r@ == self.difference_coords(rhs),
    {
        let mut coords = self.0;
        let mut i: usize = 0;
        while i < N
            invariant
                i <= N,
                forall|k: int| 0 <= k < i ==> coords@[k] == self@[k].sub_spec(rhs@[k]),
            decreases N - i,
        {
            coords[i] = self.0[i].sub(rhs.0[i]);
            i += 1;
        }
        let r = PointN(coords);
        proof {
            assert(r@ =~= self.difference_coords(rhs));
            lemma_with_coords(r);
        }
        r
    }

    fn scale(self, factor: T) -> (r: Self)
        ensures
            r@ == self.scaled_coords(factor),
    {
        let mut coords = self.0;
        let mut i: usize = 0;
        while i < N
            invariant
                i <= N,
                forall|k: int| 0 <= k < i ==> coords@[k] == self@[k].mul_spec(factor),
            decreases N - i,
        {
            coords[i] = self.0[i].mul(factor);
            i += 1;
        }
        let r = PointN(coords);
        proof {
            assert(r@ =~= self.scaled_coords(factor));
            lemma_with_coords(r);
        }
        r
    }

    fn axis(&self, index: usize) -> (r: T) {
        self.0[index]
    }

    fn squared_length(&self) -> (r: T) {
        let mut total = T::from_usize(0);
        let mut i: usize = 0;
        while i < N
            invariant
                i <= N,
                total == sum_squares(self@, i as nat),
            decreases N - i,
        {
            total = total.add(self.0[i].mul(self.0[i]));
            i += 1;
        }
        total
    }
}

/// The array `a` with its first `n` entries replaced by those of `coords`.
pub open spec fn overwrite<T, const N: usize>(a: [T; N], coords: Seq<T>, n: nat) -> [T; N]
    decreases n,
{
    if n == 0 {
        a
    } else {
        vstd::array::spec_array_update(overwrite(a, coords, (n - 1) as nat), n - 1, coords[n - 1])
    }
}

/// The entries that were replaced are those of `coords`.
pub proof fn lemma_overwrite<T, const N: usize>(a: [T; N], coords: Seq<T>, n: nat)
    requires
        n <= N,
    ensures
        forall|k: int| 0 <= k < n ==> overwrite(a, coords, n)@[k] == coords[k],
    decreases n,
{
    if n > 0 {
        let before = overwrite(a, coords, (n - 1) as nat);
        lemma_overwrite(a, coords, (n - 1) as nat);
        vstd::array::axiom_spec_array_update(before, n - 1, coords[n - 1]);
    }
}

/// Every sequence of `N` coordinates is that of a point.
pub proof fn lemma_coords_exist<T, const N: usize>(any: PointN<T, N>, coords: Seq<T>)
    requires
        coords.len() == N,
    ensures
        with_coords::<T, N>(coords)@ == coords,
{
    let p = PointN(overwrite(any.0, coords, N as nat));
    lemma_overwrite(any.0, coords, N as nat);
    assert(p@ =~= coords);
}

} // verus!
