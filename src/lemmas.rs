use vstd::prelude::*;

use crate::bytearray::{lemma_cmp_from_equal, ByteArray};
use crate::de::Deserialize;
use crate::ser::Serialize;
use crate::token::{DecodeError, Wire};
use core::cmp::Ordering;
use vstd::std_specs::cmp::{PartialEqSpec, PartialOrdSpec};

verus! {

/// A token decodes into at most one buffer or error.
pub proof fn lemma_decode_unique<'de, const N: usize>(
    w: Wire,
    r1: Result<ByteArray<N>, DecodeError>,
    r2: Result<ByteArray<N>, DecodeError>,
)
    requires
        <ByteArray<N> as Deserialize<'de>>::decodes(w, r1),
        <ByteArray<N> as Deserialize<'de>>::decodes(w, r2),
    ensures
        r1 == r2,
{
    if r1 is Ok && r2 is Ok {
        r1->Ok_0.lemma_ext_equal(r2->Ok_0);
    }
}

/// Decoding what a buffer encodes to gives the buffer back; so does decoding
/// its bytes sent as a text string or as a sequence of elements.
pub proof fn lemma_round_trip<'de, const N: usize>(b: ByteArray<N>)
    ensures
        <ByteArray<N> as Deserialize<'de>>::decodes(b.wire(), Ok(b)),
        <ByteArray<N> as Deserialize<'de>>::decodes(Wire::Str(b@), Ok(b)),
        <ByteArray<N> as Deserialize<'de>>::decodes(Wire::Elements(b@), Ok(b)),
{
    b.lemma_len();
    assert(b@.subrange(0, N as int) =~= b@);
}

/// The same round trip for a plain array, owned or borrowed.
pub proof fn lemma_round_trip_array<'de, const N: usize>(a: [u8; N])
    ensures
        <[u8; N] as Deserialize<'de>>::decodes(a.wire(), Ok(a)),
        <[u8; N] as Deserialize<'de>>::decodes(Wire::Str(a@), Ok(a)),
        <[u8; N] as Deserialize<'de>>::decodes(Wire::Elements(a@), Ok(a)),
        <&'de [u8; N] as Deserialize<'de>>::decodes(a.wire(), Ok(&a)),
        <&'de [u8; N] as Deserialize<'de>>::decodes(Wire::Str(a@), Ok(&a)),
{
    assert(a@.subrange(0, N as int) =~= a@);
}

/// A present buffer, or an absent one, comes back from its own encoding.
pub proof fn lemma_round_trip_option<'de, const N: usize>(o: Option<ByteArray<N>>)
    ensures
        <Option<ByteArray<N>> as Deserialize<'de>>::decodes(o.wire(), Ok(o)),
{
    if let Some(b) = o {
        lemma_round_trip(b);
    }
}

/// A byte string or text string whose length is not `N` is refused, naming
/// both lengths; a sequence shorter than `N` is refused, naming the first
/// missing index; a sequence of at least `N` elements yields its first `N`,
/// whatever follows them.
pub proof fn lemma_length_enforced<'de, const N: usize>(s: Seq<u8>, rest: Seq<u8>)
    ensures
        s.len() != N ==> forall|r: Result<ByteArray<N>, DecodeError>|
            <ByteArray<N> as Deserialize<'de>>::decodes(Wire::Bytes(s), r) <==> r == Err::<
                ByteArray<N>,
                DecodeError,
            >(DecodeError::InvalidLength { len: s.len() as usize, expected: N }),
        s.len() != N ==> forall|r: Result<ByteArray<N>, DecodeError>|
            <ByteArray<N> as Deserialize<'de>>::decodes(Wire::Str(s), r) <==> r == Err::<
                ByteArray<N>,
                DecodeError,
            >(DecodeError::InvalidLength { len: s.len() as usize, expected: N }),
        s.len() < N ==> forall|r: Result<ByteArray<N>, DecodeError>|
            <ByteArray<N> as Deserialize<'de>>::decodes(Wire::Elements(s), r) <==> r == Err::<
                ByteArray<N>,
                DecodeError,
            >(DecodeError::MissingElement { index: s.len() as usize, expected: N }),
        s.len() == N ==> forall|r: Result<ByteArray<N>, DecodeError>|
            <ByteArray<N> as Deserialize<'de>>::decodes(Wire::Elements(s + rest), r) <==> (
            r is Ok && r->Ok_0@ == s),
{
    if s.len() == N {
        assert((s + rest).subrange(0, N as int) =~= s);
    }
}

/// A text string and a byte string that carry the same bytes decode alike.
pub proof fn lemma_text_as_bytes<'de, const N: usize>(s: Seq<u8>)
    ensures
        forall|r: Result<ByteArray<N>, DecodeError>|
            <ByteArray<N> as Deserialize<'de>>::decodes(Wire::Str(s), r)
                <==> <ByteArray<N> as Deserialize<'de>>::decodes(Wire::Bytes(s), r),
        forall|r: Result<[u8; N], DecodeError>|
            <[u8; N] as Deserialize<'de>>::decodes(Wire::Str(s), r)
                <==> <[u8; N] as Deserialize<'de>>::decodes(Wire::Bytes(s), r),
        forall|r: Result<&'de [u8; N], DecodeError>|
            <&'de [u8; N] as Deserialize<'de>>::decodes(Wire::Str(s), r)
                <==> <&'de [u8; N] as Deserialize<'de>>::decodes(Wire::Bytes(s), r),
{
}

/// The borrowing decode is never offered a sequence: it refuses one outright.
pub proof fn lemma_borrow_refuses_elements<'de, const N: usize>(s: Seq<u8>)
    ensures
        forall|r: Result<&'de [u8; N], DecodeError>|
            <&'de [u8; N] as Deserialize<'de>>::decodes(Wire::Elements(s), r) <==> r == Err::<
                &'de [u8; N],
                DecodeError,
            >(DecodeError::InvalidType),
{
}

/// `None` encodes as the plain absent marker, whatever the wrapped type; an
/// absent marker or a unit decodes to `None`; a present marker decodes the
/// value inside it.
pub proof fn lemma_option<'de, T: Serialize + Deserialize<'de>, U: Serialize>(w: Wire)
    ensures
        (None::<T>).wire() == Wire::Absent,
        (None::<T>).wire() == (None::<U>).wire(),
        forall|r: Result<Option<T>, DecodeError>|
            <Option<T> as Deserialize<'de>>::decodes(Wire::Absent, r) <==> r == Ok::<
                Option<T>,
                DecodeError,
            >(None),
        forall|r: Result<Option<T>, DecodeError>|
            <Option<T> as Deserialize<'de>>::decodes(Wire::Unit, r) <==> r == Ok::<
                Option<T>,
                DecodeError,
            >(None),
        forall|v: T|
            <Option<T> as Deserialize<'de>>::decodes(Wire::Present(Box::new(w)), Ok(Some(v)))
                <==> T::decodes(w, Ok(v)),
        forall|e: DecodeError|
            <Option<T> as Deserialize<'de>>::decodes(Wire::Present(Box::new(w)), Err(e))
                <==> T::decodes(w, Err(e)),
{
}

/// A buffer and an array that hold the same bytes compare equal, order as
/// equal and encode to the same token.
pub proof fn lemma_structural<const N: usize>(b: ByteArray<N>, a: [u8; N])
    requires
        b@ == a@,
    ensures
        b.eq_spec(&a),
        b.partial_cmp_spec(&a) == Some(Ordering::Equal),
        b.wire() == a.wire(),
{
    lemma_cmp_from_equal(b@, a@, 0);
}

} // verus!
