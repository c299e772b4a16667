use vstd::prelude::*;

use vstd::utf8::encode_utf8;

verus! {

/// One value as a data format hands it to a visitor, or as an encoder emits it.
#[derive(Debug, PartialEq, Eq)]
pub enum Token {
    /// A byte string, sent as one unit.
    Bytes(Vec<u8>),
    /// A text string; its UTF-8 bytes are what a byte array reads from it.
    Str(String),
    /// A positional sequence of elements, each one byte.
    Elements(Vec<u8>),
    /// The unit value.
    Unit,
    /// An absent optional value.
    Absent,
    /// A present optional value, wrapping the value's own token.
    Present(Box<Token>),
}

/// The mathematical content of a `Token`.
pub enum Wire {
    /// The bytes of a byte string.
    Bytes(Seq<u8>),
    /// The UTF-8 bytes of a text string.
    Str(Seq<u8>),
    /// The elements of a sequence.
    Elements(Seq<u8>),
    Unit,
    Absent,
    /// The content of the wrapped token.
    Present(Box<Wire>),
}

impl View for Token {
    type V = Wire;

    open spec fn view(&self) -> Wire
        decreases self,
    {
        match self {
            Token::Bytes(b) => Wire::Bytes(b@),
            Token::Str(s) => Wire::Str(encode_utf8(s@)),
            Token::Elements(e) => Wire::Elements(e@),
            Token::Unit => Wire::Unit,
            Token::Absent => Wire::Absent,
            Token::Present(t) => Wire::Present(Box::new((**t).view())),
        }
    }
}

/// Why a token could not be decoded into a byte array.
#[derive(Clone, Copy, Debug, PartialEq, Eq, Structural)]
pub enum DecodeError {
    /// A byte string or text string of `len` bytes where `expected` were needed.
    InvalidLength { len: usize, expected: usize },
    /// A sequence that ended before its element at `index`; `expected` were needed.
    MissingElement { index: usize, expected: usize },
    /// A token of a shape that cannot hold a byte array.
    InvalidType,
}

} // verus!
