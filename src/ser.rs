use vstd::prelude::*;

use vstd::slice::slice_to_vec;

use crate::bytearray::ByteArray;
use crate::token::{Token, Wire};

verus! {

/// Types that are encoded as one byte string, rather than element by element.
pub trait Serialize {
    /// The content of the token that `serialize` emits.
    spec fn wire(&self) -> Wire;

    /// Encodes the value.
    fn serialize(&self) -> (t: Token)
        ensures
            t@ == self.wire(),
    ;
}

impl<const N: usize> Serialize for [u8; N] {
    open spec fn wire(&self) -> Wire {
        Wire::Bytes(self@)
    }

    fn serialize(&self) -> (t: Token) {
        Token::Bytes(slice_to_vec(self.as_slice()))
    }
}

impl<const N: usize> Serialize for ByteArray<N> {
    open spec fn wire(&self) -> Wire {
        Wire::Bytes(self@)
    }

    fn serialize(&self) -> (t: Token) {
        Token::Bytes(slice_to_vec(self.as_slice()))
    }
}

impl<'a, T: Serialize> Serialize for &'a T {
    open spec fn wire(&self) -> Wire {
        (**self).wire()
    }

    fn serialize(&self) -> (t: Token) {
        (**self).serialize()
    }
}

/// A present value is encoded as the framework's own present marker around
/// the value's token, an absent one as its own absent marker.
impl<T: Serialize> Serialize for Option<T> {
    open spec fn wire(&self) -> Wire {
        match self {
            Some(v) => Wire::Present(Box::new(v.wire())),
            None => Wire::Absent,
        }
    }

    fn serialize(&self) -> (t: Token) {
        match self {
            Some(v) => Token::Present(Box::new(v.serialize())),
            None => Token::Absent,
        }
    }
}

} // verus!
