//! A vector that keeps up to `N` items inline.
use vstd::prelude::*;

verus! {

/// Up to `N` items in an array, the number in use first; more in a `Vec`.
pub enum SmallVector<T, const N: usize> {
    Inline(usize, [T; N]),
    Dynamic(Vec<T>),
}

impl<T, const N: usize> SmallVector<T, N> {
    /// The items in use.
    pub open spec fn items(&self) -> Seq<T> {
        match self {
            SmallVector::Inline(n, array) => array@.take(*n as int),
            SmallVector::Dynamic(vec) => vec@,
        }
    }

    /// An inline vector uses at most `N` slots.
    pub open spec fn wf(&self) -> bool {
        match self {
            SmallVector::Inline(n, _) => *n <= N,
            SmallVector::Dynamic(_) => true,
        }
    }

    /// The items in use.
    pub fn as_slice(&self) -> (r: &[T])
        requires
            self.wf(),
        ensures
            r@ == self.items(),
    {
        match self {
            SmallVector::Inline(n, array) => {
                let (used, rest) = array.as_slice().split_at(*n);
                used
            },
            SmallVector::Dynamic(vec) => vec.as_slice(),
        }
    }

    /// The items in use, to be changed in place.
    pub fn as_mut_slice(&mut self) -> (r: &mut [T])
        requires
            old(self).wf(),
        ensures
            r@ == old(self).items(),
            final(self).wf(),
            final(self).items() == final(r)@,
    {
        match self {
            SmallVector::Inline(n, array) => {
                let whole: &mut [T] = array;
                let (used, rest) = whole.split_at_mut(*n);
                used
            },
            SmallVector::Dynamic(vec) => vec.as_mut_slice(),
        }
    }
}

impl<T: Copy, const N: usize> SmallVector<T, N> {
    /// `n` copies of `v`: inline when they fit in `N` slots.
    pub fn new(v: T, n: usize) -> (r: Self)
        ensures
            r.wf(),
            r.items() == Seq::new(n as nat, |i: int| v),
            n <= N ==> r is Inline,
            n > N ==> r is Dynamic,
    {
        if n <= N {
            let array: [T; N] = [v; N];
            let r = Self::Inline(n, array);
            assert(r.items() =~= Seq::new(n as nat, |i: int| v));
            r
        } else {
            let mut vec: Vec<T> = Vec::new();
            let mut i: usize = 0;
            while i < n
                invariant
                    i <= n,
                    vec@ == Seq::new(i as nat, |k: int| v),
                decreases n - i,
            {
                vec.push(v);
                i = i + 1;
                assert(vec@ =~= Seq::new(i as nat, |k: int| v));
            }
            Self::Dynamic(vec)
        }
    }
}

} // verus!
