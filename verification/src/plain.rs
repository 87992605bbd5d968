// Comparing and copying data by what it holds.
use vstd::prelude::*;

verus! {

/// Data that is compared and copied by what it holds.
pub trait Plain: DeepView + Sized {
    /// Whether `self` and `other` hold the same.
    fn same(&self, other: &Self) -> (r: bool)
        ensures
            r == (self.deep_view() == other.deep_view()),
    ;

    /// A value that holds what `self` holds.
    fn copy(&self) -> (r: Self)
        ensures
            r.deep_view() == self.deep_view(),
    ;
}

impl Plain for bool {
    fn same(&self, other: &Self) -> (r: bool) {
        *self == *other
    }

    fn copy(&self) -> (r: Self) {
        *self
    }
}

impl Plain for usize {
    fn same(&self, other: &Self) -> (r: bool) {
        *self == *other
    }

    fn copy(&self) -> (r: Self) {
        *self
    }
}

impl Plain for String {
    fn same(&self, other: &Self) -> (r: bool) {
        *self == *other
    }

    fn copy(&self) -> (r: Self) {
        self.clone()
    }
}

impl<A: Plain, B: Plain> Plain for (A, B) {
    fn same(&self, other: &Self) -> (r: bool) {
        self.0.same(&other.0) && self.1.same(&other.1)
    }

    fn copy(&self) -> (r: Self) {
        (self.0.copy(), self.1.copy())
    }
}

impl<T: Plain> Plain for Option<T> {
    fn same(&self, other: &Self) -> (r: bool) {
        match (self, other) {
            (Some(a), Some(b)) => a.same(b),
            (None, None) => true,
            _ => false,
        }
    }

    fn copy(&self) -> (r: Self) {
        match self {
            Some(a) => Some(a.copy()),
            None => None,
        }
    }
}

impl<T: Plain> Plain for Vec<T> {
    fn same(&self, other: &Self) -> (r: bool) {
        if self.len() != other.len() {
            return false;
        }
        let mut i: usize = 0;
        while i < self.len()
            invariant
                i <= self.len(),
                self.len() == other.len(),
                forall|j: int| 0 <= j < i ==> self@[j].deep_view() == other@[j].deep_view(),
            decreases self.len() - i,
        {
            if !self[i].same(&other[i]) {
                assert(self.deep_view()[i as int] == self@[i as int].deep_view());
                return false;
            }
            i += 1;
        }
        assert(self.deep_view() =~= other.deep_view());
        true
    }

    fn copy(&self) -> (r: Self) {
        let mut r: Vec<T> = Vec::new();
        let mut i: usize = 0;
        while i < self.len()
            invariant
                i <= self.len(),
                r.len() == i,
                forall|j: int| 0 <= j < i ==> r@[j].deep_view() == self@[j].deep_view(),
            decreases self.len() - i,
        {
            r.push(self[i].copy());
            i += 1;
        }
        assert(r.deep_view() =~= self.deep_view());
        r
    }
}

} // verus!
