use vstd::prelude::*;

use core::array::TryFromSliceError;
use core::borrow::{Borrow, BorrowMut};
use core::cmp::Ordering;
use core::ops::{Deref, DerefMut};

verus! {

/// Declares std's `TryFromSliceError`, the error of a slice-to-array
/// conversion whose lengths differ; it is carried through, never inspected.
#[verifier::external_type_specification]
#[verifier::external_body]
pub struct ExTryFromSliceError(TryFromSliceError);

/// Relies on `<[u8; N] as TryFrom<&[u8]>>::try_from`: it succeeds exactly when
/// the slice holds `N` bytes, and then returns a copy of them.
#[verifier::external_body]
pub(crate) fn array_from_slice<const N: usize>(s: &[u8]) -> (r: Result<[u8; N], TryFromSliceError>)
    ensures
        r is Ok <==> s@.len() == N,
        r is Ok ==> r->Ok_0@ == s@,
{
    <[u8; N]>::try_from(s)
}

/// Lexicographic comparison of `a` and `b` from position `i` on; both are
/// taken to have the same length.
pub open spec fn cmp_from(a: Seq<u8>, b: Seq<u8>, i: int) -> Ordering
    decreases a.len() - i,
{
    if i < 0 || i >= a.len() {
        Ordering::Equal
    } else if a[i] < b[i] {
        Ordering::Less
    } else if a[i] > b[i] {
        Ordering::Greater
    } else {
        cmp_from(a, b, i + 1)
    }
}

/// A sequence compares equal to itself.
pub proof fn lemma_cmp_from_equal(a: Seq<u8>, b: Seq<u8>, i: int)
    requires
        a == b,
    ensures
        cmp_from(a, b, i) == Ordering::Equal,
    decreases a.len() - i,
{
    if 0 <= i < a.len() {
        lemma_cmp_from_equal(a, b, i + 1);
    }
}

/// Lexicographic order of two byte sequences of the same length.
pub open spec fn lex_cmp(a: Seq<u8>, b: Seq<u8>) -> Ordering {
    cmp_from(a, b, 0)
}

/// A fixed-size buffer of `N` bytes that holds nothing besides the bytes.
#[derive(Copy, Clone, Eq, Ord, Hash, Debug)]
pub struct ByteArray<const N: usize> {
    bytes: [u8; N],
}

impl<const N: usize> View for ByteArray<N> {
    type V = Seq<u8>;

    closed spec fn view(&self) -> Seq<u8> {
        self.bytes@
    }
}

impl<const N: usize> ByteArray<N> {
    /// Every buffer holds exactly `N` bytes.
    pub proof fn lemma_len(self)
        ensures
            self@.len() == N,
    {
    }

    /// Two buffers with the same bytes are the same buffer.
    pub proof fn lemma_ext_equal(self, other: Self)
        requires
            self@ == other@,
        ensures
            self == other,
    {
        assert(self.bytes =~= other.bytes);
    }

    /// Wraps an array.
    pub fn new(bytes: [u8; N]) -> (r: Self)
        ensures
            r@ == bytes@,
    {
        Self { bytes }
    }

    /// Wraps anything that converts into an array of `N` bytes.
    pub fn from<T: Into<[u8; N]>>(bytes: T) -> (r: Self)
        ensures
            exists|a: [u8; N]| #[trigger] call_ensures(T::into, (bytes,), a) && r@ == a@,
    {
        let a: [u8; N] = bytes.into();
        Self { bytes: a }
    }

    /// All bytes of the buffer, in order.
    pub fn as_slice(&self) -> (r: &[u8])
        ensures
            r@ == self@,
    {
        self.bytes.as_slice()
    }

    /// Unwraps the underlying array.
    pub fn into_array(self) -> (r: [u8; N])
        ensures
            r@ == self@,
    {
        self.bytes
    }

    /// Copies a slice into a new buffer; fails unless the slice holds exactly `N` bytes.
    pub fn try_from_slice(bytes: &[u8]) -> (r: Result<Self, TryFromSliceError>)
        ensures
            r is Ok <==> bytes@.len() == N,
            r is Ok ==> r->Ok_0@ == bytes@,
    {
        match array_from_slice::<N>(bytes) {
            Ok(a) => Ok(Self { bytes: a }),
            Err(e) => Err(e),
        }
    }
}

impl<const N: usize> From<[u8; N]> for ByteArray<N> {
    fn from(bytes: [u8; N]) -> (r: ByteArray<N>)
        ensures
            r@ == bytes@,
    {
        ByteArray { bytes }
    }
}

impl<const N: usize> vstd::std_specs::convert::FromSpecImpl<[u8; N]> for ByteArray<N> {
    open spec fn obeys_from_spec() -> bool {
        true
    }

    closed spec fn from_spec(v: [u8; N]) -> ByteArray<N> {
        ByteArray { bytes: v }
    }
}

impl<const N: usize> From<ByteArray<N>> for [u8; N] {
    fn from(b: ByteArray<N>) -> (r: [u8; N])
        ensures
            r@ == b@,
    {
        b.bytes
    }
}

impl<const N: usize> vstd::std_specs::convert::FromSpecImpl<ByteArray<N>> for [u8; N] {
    open spec fn obeys_from_spec() -> bool {
        true
    }

    closed spec fn from_spec(v: ByteArray<N>) -> [u8; N] {
        v.bytes
    }
}

impl<'a, const N: usize> TryFrom<&'a [u8]> for ByteArray<N> {
    type Error = TryFromSliceError;

    fn try_from(bytes: &'a [u8]) -> (r: Result<Self, TryFromSliceError>)
        ensures
            r is Ok <==> bytes@.len() == N,
            r is Ok ==> r->Ok_0@ == bytes@,
    {
        Self::try_from_slice(bytes)
    }
}

impl<'a, const N: usize> vstd::std_specs::convert::TryFromSpecImpl<&'a [u8]> for ByteArray<N> {
    /// The error value is opaque, so the result is described by the
    /// `ensures` of `try_from` instead.
    open spec fn obeys_try_from_spec() -> bool {
        false
    }

    closed spec fn try_from_spec(v: &'a [u8]) -> Result<Self, TryFromSliceError> {
        arbitrary()
    }
}

impl<const N: usize> Default for ByteArray<N> {
    fn default() -> (r: Self)
        ensures
            r@ == Seq::new(N as nat, |i: int| 0u8),
    {
        let r = Self::new([0u8; N]);
        assert(r@ =~= Seq::new(N as nat, |i: int| 0u8));
        r
    }
}

impl<const N: usize> AsRef<[u8; N]> for ByteArray<N> {
    fn as_ref(&self) -> &[u8; N] {
        &self.bytes
    }
}

impl<const N: usize> AsMut<[u8; N]> for ByteArray<N> {
    fn as_mut(&mut self) -> &mut [u8; N] {
        &mut self.bytes
    }
}

impl<const N: usize> AsRef<[u8]> for ByteArray<N> {
    fn as_ref(&self) -> &[u8] {
        self.bytes.as_slice()
    }
}

impl<const N: usize> AsMut<[u8]> for ByteArray<N> {
    fn as_mut(&mut self) -> &mut [u8] {
        vstd::array::ref_mut_array_unsizing_coercion(&mut self.bytes)
    }
}

impl<const N: usize> Borrow<[u8]> for ByteArray<N> {
    fn borrow(&self) -> &[u8] {
        self.bytes.as_slice()
    }
}

impl<const N: usize> BorrowMut<[u8]> for ByteArray<N> {
    fn borrow_mut(&mut self) -> &mut [u8] {
        vstd::array::ref_mut_array_unsizing_coercion(&mut self.bytes)
    }
}

impl<'a, const N: usize> IntoIterator for &'a ByteArray<N> {
    type Item = &'a u8;
    type IntoIter = core::slice::Iter<'a, u8>;

    fn into_iter(self) -> Self::IntoIter {
        self.bytes.iter()
    }
}

impl<const N: usize> Borrow<[u8; N]> for ByteArray<N> {
    fn borrow(&self) -> &[u8; N] {
        &self.bytes
    }
}

impl<const N: usize> BorrowMut<[u8; N]> for ByteArray<N> {
    fn borrow_mut(&mut self) -> &mut [u8; N] {
        &mut self.bytes
    }
}

impl<const N: usize> Deref for ByteArray<N> {
    type Target = [u8; N];

    fn deref(&self) -> (r: &[u8; N])
        ensures
            r@ == self@,
    {
        &self.bytes
    }
}

impl<const N: usize> DerefMut for ByteArray<N> {
    fn deref_mut(&mut self) -> (r: &mut [u8; N])
        ensures
            (*r)@ == old(self)@,
            final(self)@ == (*final(r))@,
    {
        &mut self.bytes
    }
}

impl<const N: usize> PartialEq for ByteArray<N> {
    fn eq(&self, other: &ByteArray<N>) -> (r: bool) {
        bytes_eq(&self.bytes, &other.bytes)
    }
}

impl<const N: usize> vstd::std_specs::cmp::PartialEqSpecImpl for ByteArray<N> {
    open spec fn obeys_eq_spec() -> bool {
        true
    }

    open spec fn eq_spec(&self, other: &ByteArray<N>) -> bool {
        self@ == other@
    }
}

impl<const N: usize> PartialEq<[u8; N]> for ByteArray<N> {
    fn eq(&self, other: &[u8; N]) -> (r: bool) {
        bytes_eq(&self.bytes, other)
    }
}

impl<const N: usize> vstd::std_specs::cmp::PartialEqSpecImpl<[u8; N]> for ByteArray<N> {
    open spec fn obeys_eq_spec() -> bool {
        true
    }

    open spec fn eq_spec(&self, other: &[u8; N]) -> bool {
        self@ == other@
    }
}

impl<const N: usize> PartialOrd for ByteArray<N> {
    fn partial_cmp(&self, other: &ByteArray<N>) -> (r: Option<Ordering>) {
        Some(bytes_cmp(&self.bytes, &other.bytes))
    }
}

impl<const N: usize> vstd::std_specs::cmp::PartialOrdSpecImpl for ByteArray<N> {
    open spec fn obeys_partial_cmp_spec() -> bool {
        true
    }

    open spec fn partial_cmp_spec(&self, other: &ByteArray<N>) -> Option<Ordering> {
        Some(lex_cmp(self@, other@))
    }
}

impl<const N: usize> PartialOrd<[u8; N]> for ByteArray<N> {
    fn partial_cmp(&self, other: &[u8; N]) -> (r: Option<Ordering>) {
        Some(bytes_cmp(&self.bytes, other))
    }
}

impl<const N: usize> vstd::std_specs::cmp::PartialOrdSpecImpl<[u8; N]> for ByteArray<N> {
    open spec fn obeys_partial_cmp_spec() -> bool {
        true
    }

    open spec fn partial_cmp_spec(&self, other: &[u8; N]) -> Option<Ordering> {
        Some(lex_cmp(self@, other@))
    }
}

/// Whether two arrays hold the same bytes.
fn bytes_eq<const N: usize>(a: &[u8; N], b: &[u8; N]) -> (r: bool)
    ensures
        r == (a@ == b@),
{
    let mut i: usize = 0;
    while i < N
        invariant
            i <= N,
            a@.len() == N,
            b@.len() == N,
            a@.subrange(0, i as int) == b@.subrange(0, i as int),
        decreases N - i,
    {
        if a[i] != b[i] {
            assert(a@[i as int] != b@[i as int]);
            return false;
        }
        assert(a@.subrange(0, i + 1) =~= a@.subrange(0, i as int).push(a@[i as int]));
        assert(b@.subrange(0, i + 1) =~= b@.subrange(0, i as int).push(b@[i as int]));
        i = i + 1;
    }
    assert(a@ =~= a@.subrange(0, N as int));
    assert(b@ =~= b@.subrange(0, N as int));
    true
}

/// Lexicographic comparison of two arrays of the same length.
fn bytes_cmp<const N: usize>(a: &[u8; N], b: &[u8; N]) -> (r: Ordering)
    ensures
        r == lex_cmp(a@, b@),
{
    let mut i: usize = 0;
    while i < N
        invariant
            i <= N,
            a@.len() == N,
            b@.len() == N,
            cmp_from(a@, b@, 0) == cmp_from(a@, b@, i as int),
        decreases N - i,
    {
        if a[i] < b[i] {
            return Ordering::Less;
        } else if a[i] > b[i] {
            return Ordering::Greater;
        }
        i = i + 1;
    }
    Ordering::Equal
}

} // verus!
