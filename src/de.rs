use vstd::prelude::*;

use vstd::utf8::encode_utf8;

use crate::bytearray::ByteArray;
use crate::token::{DecodeError, Token, Wire};
use core::array::TryFromSliceError;

verus! {

/// Checks that a byte or text string holds exactly `n` bytes.
pub open spec fn check_len(b: Seq<u8>, n: nat) -> Result<Seq<u8>, DecodeError> {
    if b.len() == n {
        Ok(b)
    } else {
        Err(DecodeError::InvalidLength { len: b.len() as usize, expected: n as usize })
    }
}

/// What decoding a token with content `w` into `n` bytes yields, when the
/// bytes may be copied: a byte string or a text string of exactly `n` bytes,
/// or a sequence of at least `n` elements, of which the first `n` are read.
pub open spec fn decode_spec(w: Wire, n: nat) -> Result<Seq<u8>, DecodeError> {
    match w {
        Wire::Bytes(b) => check_len(b, n),
        Wire::Str(b) => check_len(b, n),
        Wire::Elements(e) => if e.len() >= n {
            Ok(e.subrange(0, n as int))
        } else {
            Err(DecodeError::MissingElement { index: e.len() as usize, expected: n as usize })
        },
        _ => Err(DecodeError::InvalidType),
    }
}

/// What decoding a token with content `w` into `n` bytes yields, when the
/// result must point into the token: only strings are accepted.
pub open spec fn decode_borrowed_spec(w: Wire, n: nat) -> Result<Seq<u8>, DecodeError> {
    match w {
        Wire::Bytes(b) => check_len(b, n),
        Wire::Str(b) => check_len(b, n),
        _ => Err(DecodeError::InvalidType),
    }
}

/// Whether the decode result `r` is the outcome `d`, comparing values by
/// their bytes.
pub open spec fn agrees<A: View<V = Seq<u8>>>(
    r: Result<A, DecodeError>,
    d: Result<Seq<u8>, DecodeError>,
) -> bool {
    match r {
        Ok(a) => d == Ok::<Seq<u8>, DecodeError>(a@),
        Err(e) => d == Err::<Seq<u8>, DecodeError>(e),
    }
}

/// Relies on `<&[u8; N] as TryFrom<&[u8]>>::try_from`: it succeeds exactly
/// when the slice holds `N` bytes, and then views the same bytes.
#[verifier::external_body]
fn array_ref_from_slice<'a, const N: usize>(s: &'a [u8]) -> (r: Result<&'a [u8; N], TryFromSliceError>)
    ensures
        r is Ok <==> s@.len() == N,
        r is Ok ==> r->Ok_0@ == s@,
{
    <&'a [u8; N]>::try_from(s)
}

/// Reads a byte string into a new buffer.
pub fn visit_bytes<const N: usize>(v: &[u8]) -> (r: Result<ByteArray<N>, DecodeError>)
    ensures
        agrees(r, check_len(v@, N as nat)),
{
    match ByteArray::<N>::try_from_slice(v) {
        Ok(b) => Ok(b),
        Err(_) => Err(DecodeError::InvalidLength { len: v.len(), expected: N }),
    }
}

/// Reads a text string into a new buffer, by its UTF-8 bytes.
pub fn visit_str<const N: usize>(v: &str) -> (r: Result<ByteArray<N>, DecodeError>)
    ensures
        agrees(r, check_len(encode_utf8(v@), N as nat)),
{
    visit_bytes::<N>(v.as_bytes())
}

/// Reads the first `N` elements of a sequence into a new buffer; the elements
/// after them are not read.
pub fn visit_seq<const N: usize>(elems: &[u8]) -> (r: Result<ByteArray<N>, DecodeError>)
    ensures
        agrees(r, decode_spec(Wire::Elements(elems@), N as nat)),
{
    let mut fill = SeqFill::<N>::new();
    let mut i: usize = 0;
    while fill.needs_more()
        invariant
            fill.wf(),
            i == fill@.len(),
            i <= elems@.len() ==> fill@ == elems@.subrange(0, i as int),
            i <= elems@.len(),
        decreases N - i,
    {
        if i >= elems.len() {
            return Err(fill.end_of_sequence());
        }
        fill.push(elems[i]);
        assert(elems@.subrange(0, i + 1) =~= elems@.subrange(0, i as int).push(elems@[i as int]));
        i = i + 1;
    }
    let b = fill.finish();
    Ok(b)
}

/// Views a byte string as an array of `N` bytes, without copying.
pub fn visit_borrowed_bytes<'de, const N: usize>(v: &'de [u8]) -> (r: Result<&'de [u8; N], DecodeError>)
    ensures
        agrees(r, check_len(v@, N as nat)),
{
    match array_ref_from_slice::<N>(v) {
        Ok(a) => Ok(a),
        Err(_) => Err(DecodeError::InvalidLength { len: v.len(), expected: N }),
    }
}

/// Views the UTF-8 bytes of a text string as an array of `N` bytes, without copying.
pub fn visit_borrowed_str<'de, const N: usize>(v: &'de str) -> (r: Result<&'de [u8; N], DecodeError>)
    ensures
        agrees(r, check_len(encode_utf8(v@), N as nat)),
{
    visit_borrowed_bytes::<N>(v.as_bytes())
}

/// Collects the elements of a positional sequence, one at a time, into a
/// buffer of `N` bytes.
pub struct SeqFill<const N: usize> {
    bytes: [u8; N],
    filled: usize,
}

impl<const N: usize> View for SeqFill<N> {
    type V = Seq<u8>;

    /// The elements collected so far.
    closed spec fn view(&self) -> Seq<u8> {
        self.bytes@.subrange(0, self.filled as int)
    }
}

impl<const N: usize> SeqFill<N> {
    /// No more than `N` elements have been collected.
    pub closed spec fn wf(&self) -> bool {
        self.filled <= N
    }

    /// Starts with no element.
    pub fn new() -> (r: Self)
        ensures
            r.wf(),
            r@ == Seq::<u8>::empty(),
    {
        let r = SeqFill { bytes: [0u8; N], filled: 0 };
        assert(r@ =~= Seq::<u8>::empty());
        r
    }

    /// Whether fewer than `N` elements have been collected.
    pub fn needs_more(&self) -> (r: bool)
        requires
            self.wf(),
        ensures
            r == (self@.len() < N),
    {
        self.filled < N
    }

    /// Collects the next element.
    pub fn push(&mut self, b: u8)
        requires
            old(self).wf(),
            old(self)@.len() < N,
        ensures
            final(self).wf(),
            final(self)@ == old(self)@.push(b),
    {
        let ghost before = self@;
        let i = self.filled;
        self.bytes[i] = b;
        self.filled = i + 1;
        assert(self@ =~= before.push(b));
    }

    /// The error for a sequence that ends now.
    pub fn end_of_sequence(&self) -> (r: DecodeError)
        requires
            self.wf(),
        ensures
            r == (DecodeError::MissingElement { index: self@.len() as usize, expected: N }),
    {
        DecodeError::MissingElement { index: self.filled, expected: N }
    }

    /// The buffer of the `N` elements collected.
    pub fn finish(self) -> (r: ByteArray<N>)
        requires
            self.wf(),
            self@.len() == N,
        ensures
            r@ == self@,
    {
        assert(self.bytes@ =~= self@);
        ByteArray::new(self.bytes)
    }
}

/// Decodes a token into a new buffer of `N` bytes, whichever of a byte
/// string, a text string or a sequence it is.
pub fn decode_owned<const N: usize>(t: &Token) -> (r: Result<ByteArray<N>, DecodeError>)
    ensures
        agrees(r, decode_spec(t@, N as nat)),
{
    match t {
        Token::Bytes(b) => visit_bytes::<N>(b.as_slice()),
        Token::Str(s) => visit_str::<N>(s.as_str()),
        Token::Elements(e) => visit_seq::<N>(e.as_slice()),
        _ => Err(DecodeError::InvalidType),
    }
}

/// Decodes a byte string or text string token into an array of `N` bytes
/// that points into the token; a sequence is refused, since its elements
/// would have to be copied.
pub fn decode_borrowed<'de, const N: usize>(t: &'de Token) -> (r: Result<&'de [u8; N], DecodeError>)
    ensures
        agrees(r, decode_borrowed_spec(t@, N as nat)),
{
    match t {
        Token::Bytes(b) => visit_borrowed_bytes::<N>(b.as_slice()),
        Token::Str(s) => visit_borrowed_str::<N>(s.as_str()),
        _ => Err(DecodeError::InvalidType),
    }
}

/// Types that are decoded from a byte string, a text string or a sequence of bytes.
pub trait Deserialize<'de>: Sized {
    /// Whether `r` is what decoding a token with content `w` yields.
    spec fn decodes(w: Wire, r: Result<Self, DecodeError>) -> bool;

    /// Decodes a token.
    fn deserialize(t: &'de Token) -> (r: Result<Self, DecodeError>)
        ensures
            Self::decodes(t@, r),
    ;
}

impl<'de, const N: usize> Deserialize<'de> for [u8; N] {
    open spec fn decodes(w: Wire, r: Result<Self, DecodeError>) -> bool {
        agrees(r, decode_spec(w, N as nat))
    }

    fn deserialize(t: &'de Token) -> (r: Result<Self, DecodeError>) {
        match decode_owned::<N>(t) {
            Ok(b) => Ok(b.into_array()),
            Err(e) => Err(e),
        }
    }
}

impl<'de, const N: usize> Deserialize<'de> for ByteArray<N> {
    open spec fn decodes(w: Wire, r: Result<Self, DecodeError>) -> bool {
        agrees(r, decode_spec(w, N as nat))
    }

    fn deserialize(t: &'de Token) -> (r: Result<Self, DecodeError>) {
        decode_owned::<N>(t)
    }
}

impl<'de, const N: usize> Deserialize<'de> for &'de [u8; N] {
    open spec fn decodes(w: Wire, r: Result<Self, DecodeError>) -> bool {
        agrees(r, decode_borrowed_spec(w, N as nat))
    }

    fn deserialize(t: &'de Token) -> (r: Result<Self, DecodeError>) {
        decode_borrowed::<N>(t)
    }
}

/// An absent marker or a unit decodes to `None`; a present marker decodes
/// the value inside it.
impl<'de, T: Deserialize<'de>> Deserialize<'de> for Option<T> {
    open spec fn decodes(w: Wire, r: Result<Self, DecodeError>) -> bool {
        match w {
            Wire::Absent | Wire::Unit => r == Ok::<Option<T>, DecodeError>(None),
            Wire::Present(inner) => match r {
                Ok(Some(v)) => T::decodes(*inner, Ok(v)),
                Ok(None) => false,
                Err(e) => T::decodes(*inner, Err(e)),
            },
            _ => r == Err::<Option<T>, DecodeError>(DecodeError::InvalidType),
        }
    }

    fn deserialize(t: &'de Token) -> (r: Result<Self, DecodeError>) {
        match t {
            Token::Absent | Token::Unit => Ok(None),
            Token::Present(inner) => match T::deserialize(&**inner) {
                Ok(v) => Ok(Some(v)),
                Err(e) => Err(e),
            },
            _ => Err(DecodeError::InvalidType),
        }
    }
}

} // verus!
