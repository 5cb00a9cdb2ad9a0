//! Faithful copies of model values.
//!
//! A copy of a list is another list with the same length and faithful copies
//! of its elements; Verus cannot identify two distinct `Vec`s with equal
//! contents, so faithfulness is the relation `same` rather than `==`.
use vstd::prelude::*;

verus! {

/// Values that can be copied with a proof that the copy is faithful.
pub trait ExactCopy: Sized {
    /// `other` holds what `self` holds.
    spec fn same(&self, other: &Self) -> bool;

    fn exact_copy(&self) -> (r: Self)
        ensures
            self.same(&r),
    ;
}

impl ExactCopy for String {
    open spec fn same(&self, other: &Self) -> bool {
        *self == *other
    }

    fn exact_copy(&self) -> (r: Self) {
        self.clone()
    }
}

impl ExactCopy for bool {
    open spec fn same(&self, other: &Self) -> bool {
        *self == *other
    }

    fn exact_copy(&self) -> (r: Self) {
        *self
    }
}

impl ExactCopy for u16 {
    open spec fn same(&self, other: &Self) -> bool {
        *self == *other
    }

    fn exact_copy(&self) -> (r: Self) {
        *self
    }
}

impl ExactCopy for u32 {
    open spec fn same(&self, other: &Self) -> bool {
        *self == *other
    }

    fn exact_copy(&self) -> (r: Self) {
        *self
    }
}

impl ExactCopy for u64 {
    open spec fn same(&self, other: &Self) -> bool {
        *self == *other
    }

    fn exact_copy(&self) -> (r: Self) {
        *self
    }
}

impl ExactCopy for i64 {
    open spec fn same(&self, other: &Self) -> bool {
        *self == *other
    }

    fn exact_copy(&self) -> (r: Self) {
        *self
    }
}

impl<T: ExactCopy> ExactCopy for Option<T> {
    open spec fn same(&self, other: &Self) -> bool {
        match (*self, *other) {
            (Some(a), Some(b)) => a.same(&b),
            (None, None) => true,
            _ => false,
        }
    }

    fn exact_copy(&self) -> (r: Self) {
        match self {
            Some(x) => Some(x.exact_copy()),
            None => None,
        }
    }
}

impl<A: ExactCopy, B: ExactCopy> ExactCopy for (A, B) {
    open spec fn same(&self, other: &Self) -> bool {
        self.0.same(&other.0) && self.1.same(&other.1)
    }

    fn exact_copy(&self) -> (r: Self) {
        (self.0.exact_copy(), self.1.exact_copy())
    }
}

impl<T: ExactCopy> ExactCopy for Vec<T> {
    open spec fn same(&self, other: &Self) -> bool {
        &&& self@.len() == other@.len()
        &&& forall|i: int| 0 <= i < self@.len() ==> (#[trigger] self@[i]).same(&other@[i])
    }

    fn exact_copy(&self) -> (r: Self) {
        let mut r: Vec<T> = Vec::new();
        let mut i: usize = 0;
        while i < self.len()
            invariant
                i <= self@.len(),
                r@.len() == i,
                forall|j: int| 0 <= j < i ==> (#[trigger] self@[j]).same(&r@[j]),
            decreases self@.len() - i,
        {
            r.push(self[i].exact_copy());
            i = i + 1;
        }
        r
    }
}

} // verus!
