//! Plain data: values that can be copied and compared by what they mean.

use vstd::prelude::*;

verus! {

/// A value whose meaning is its deep view. `dup` copies it, `same` compares it.
pub trait Data: DeepView + Sized {
    fn dup(&self) -> (copy: Self)
        ensures
            copy.deep_view() == self.deep_view(),
    ;

    fn same(&self, other: &Self) -> (equal: bool)
        ensures
            equal == (self.deep_view() == other.deep_view()),
    ;
}

impl Data for String {
    fn dup(&self) -> (copy: Self) {
        self.clone()
    }

    fn same(&self, other: &Self) -> (equal: bool) {
        *self == *other
    }
}

impl Data for () {
    fn dup(&self) -> (copy: Self) {
    }

    fn same(&self, other: &Self) -> (equal: bool) {
        true
    }
}

impl Data for bool {
    fn dup(&self) -> (copy: Self) {
        *self
    }

    fn same(&self, other: &Self) -> (equal: bool) {
        *self == *other
    }
}

impl Data for u8 {
    fn dup(&self) -> (copy: Self) {
        *self
    }

    fn same(&self, other: &Self) -> (equal: bool) {
        *self == *other
    }
}

impl Data for u32 {
    fn dup(&self) -> (copy: Self) {
        *self
    }

    fn same(&self, other: &Self) -> (equal: bool) {
        *self == *other
    }
}

impl Data for i32 {
    fn dup(&self) -> (copy: Self) {
        *self
    }

    fn same(&self, other: &Self) -> (equal: bool) {
        *self == *other
    }
}

impl Data for i64 {
    fn dup(&self) -> (copy: Self) {
        *self
    }

    fn same(&self, other: &Self) -> (equal: bool) {
        *self == *other
    }
}

impl Data for u64 {
    fn dup(&self) -> (copy: Self) {
        *self
    }

    fn same(&self, other: &Self) -> (equal: bool) {
        *self == *other
    }
}

impl Data for usize {
    fn dup(&self) -> (copy: Self) {
        *self
    }

    fn same(&self, other: &Self) -> (equal: bool) {
        *self == *other
    }
}

impl<T: Data> Data for Option<T> {
    fn dup(&self) -> (copy: Self) {
        match self {
            Some(value) => Some(value.dup()),
            None => None,
        }
    }

    fn same(&self, other: &Self) -> (equal: bool) {
        match (self, other) {
            (Some(a), Some(b)) => a.same(b),
            (None, None) => true,
            _ => false,
        }
    }
}

impl<A: Data, B: Data> Data for (A, B) {
    fn dup(&self) -> (copy: Self) {
        (self.0.dup(), self.1.dup())
    }

    fn same(&self, other: &Self) -> (equal: bool) {
        self.0.same(&other.0) && self.1.same(&other.1)
    }
}

impl<T: Data> Data for Vec<T> {
    fn dup(&self) -> (copy: Self) {
        let mut copy: Vec<T> = Vec::new();
        let mut i: usize = 0;
        while i < self.len()
            invariant
                i <= self.len(),
                copy.len() == i,
                forall|j: int| 0 <= j < i ==> copy@[j].deep_view() == self@[j].deep_view(),
            decreases self.len() - i,
        {
            copy.push(self[i].dup());
            i += 1;
        }
        assert(copy.deep_view() =~= self.deep_view());
        copy
    }

    fn same(&self, other: &Self) -> (equal: bool) {
        if self.len() != other.len() {
            assert(self.deep_view().len() != other.deep_view().len());
            return false;
        }
        let mut i: usize = 0;
        while i < self.len()
            invariant
                i <= self.len(),
                self.len() == other.len(),
                forall|j: int| 0 <= j < i ==> self@[j].deep_view() == other@[j].deep_view(),
            decreases self.len() - i,
        {
            if !self[i].same(&other[i]) {
                assert(self.deep_view()[i as int] != other.deep_view()[i as int]);
                return false;
            }
            i += 1;
        }
        assert(self.deep_view() =~= other.deep_view());
        true
    }
}

/// A copy of some bytes.
pub fn bytes_dup(bytes: &Vec<u8>) -> (copy: Vec<u8>)
    ensures
        copy@ == bytes@,
{
    let copy = bytes.clone();
    assert(copy@ =~= bytes@);
    copy
}

} // verus!
