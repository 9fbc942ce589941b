//! Values that are what they hold: copied and compared by their contents.

use vstd::prelude::*;

verus! {

/// A value with nothing to it but its contents.
pub trait Plain: DeepView + Sized {
    /// Whether two values hold the same.
    fn same(&self, other: &Self) -> (r: bool)
        ensures
            r == (self.deep_view() == other.deep_view()),
    ;

    /// Another value that holds the same.
    fn copy(&self) -> (r: Self)
        ensures
            r.deep_view() == self.deep_view(),
    ;
}

impl Plain for bool {
    fn same(&self, other: &Self) -> bool {
        *self == *other
    }

    fn copy(&self) -> Self {
        *self
    }
}

impl Plain for u32 {
    fn same(&self, other: &Self) -> bool {
        *self == *other
    }

    fn copy(&self) -> Self {
        *self
    }
}

impl Plain for u64 {
    fn same(&self, other: &Self) -> bool {
        *self == *other
    }

    fn copy(&self) -> Self {
        *self
    }
}

impl Plain for String {
    fn same(&self, other: &Self) -> bool {
        *self == *other
    }

    fn copy(&self) -> Self {
        self.clone()
    }
}

impl<T: Plain> Plain for Option<T> {
    fn same(&self, other: &Self) -> bool {
        match (self, other) {
            (Some(a), Some(b)) => a.same(b),
            (None, None) => true,
            _ => false,
        }
    }

    fn copy(&self) -> Self {
        match self {
            Some(a) => Some(a.copy()),
            None => None,
        }
    }
}

impl<T: Plain> Plain for Vec<T> {
    fn same(&self, other: &Self) -> bool {
        if self.len() != other.len() {
            assert(self.deep_view().len() != other.deep_view().len());
            return false;
        }
        let mut i: usize = 0;
        while i < self.len()
            invariant
                i <= self.len(),
                self.len() == other.len(),
                forall|j: int|
                    0 <= j < i ==> #[trigger] self.deep_view()[j] == other.deep_view()[j],
            decreases self.len() - i,
        {
            if !self[i].same(&other[i]) {
                assert(self.deep_view()[i as int] != other.deep_view()[i as int]);
                return false;
            }
            assert(self.deep_view()[i as int] == other.deep_view()[i as int]);
            i = i + 1;
        }
        assert(self.deep_view() =~= other.deep_view());
        true
    }

    fn copy(&self) -> Self {
        let mut r: Vec<T> = Vec::new();
        let mut i: usize = 0;
        while i < self.len()
            invariant
                i <= self.len(),
                r.deep_view() == self.deep_view().take(i as int),
            decreases self.len() - i,
        {
            let ghost before = r.deep_view();
            let x = self[i].copy();
            r.push(x);
            assert(r.deep_view() =~= before.push(x.deep_view()));
            assert(self.deep_view().take(i + 1) =~= self.deep_view().take(i as int).push(
                self.deep_view()[i as int],
            ));
            i = i + 1;
        }
        assert(r.deep_view() =~= self.deep_view());
        r
    }
}

impl<A: Plain, B: Plain> Plain for (A, B) {
    fn same(&self, other: &Self) -> bool {
        self.0.same(&other.0) && self.1.same(&other.1)
    }

    fn copy(&self) -> Self {
        (self.0.copy(), self.1.copy())
    }
}

/// A result by the contents of what it holds.
pub open spec fn shown<T: DeepView, E: DeepView>(r: Result<T, E>) -> Result<T::V, E::V> {
    match r {
        Ok(v) => Ok(v.deep_view()),
        Err(e) => Err(e.deep_view()),
    }
}

} // verus!
