//! Buffers full of zeroes.

use vstd::prelude::*;

verus! {

/// Vec-like that can be initialized with zeroes
pub trait Zeroed: Sized {
    /// Whether this is an array of given length that holds zeroes only.
    spec fn is_zeroed(self, length: nat) -> bool;

    /// create and initialize array of given length with zeroes
    fn zeroed(length: usize) -> (array: Self)
        requires
            length <= isize::MAX,
        ensures
            array.is_zeroed(length as nat),
    ;
}

impl Zeroed for Vec<u8> {
    open spec fn is_zeroed(self, length: nat) -> bool {
        self@ == Seq::new(length, |i: int| 0u8)
    }

    fn zeroed(length: usize) -> (vec: Self) {
        let mut vec: Vec<u8> = Vec::with_capacity(length);
        vec.resize(length, 0);
        assert(vec@ =~= Seq::new(length as nat, |i: int| 0u8));
        vec
    }
}

/// A zeroed vector has the length asked for, and each of its bytes is zero.
pub proof fn law_zeroed_vector(vec: Vec<u8>, length: nat)
    ensures
        vec.is_zeroed(length) <==> vec@.len() == length && (forall|i: int|
            0 <= i < length ==> #[trigger] vec@[i] == 0),
{
    if vec@.len() == length && (forall|i: int| 0 <= i < length ==> #[trigger] vec@[i] == 0) {
        assert(vec@ =~= Seq::new(length, |i: int| 0u8));
    }
}

} // verus!
