use vstd::prelude::*;

pub mod bytearray;
pub mod de;
pub mod lemmas;
pub mod ser;
pub mod token;

pub use bytearray::ByteArray;
pub use de::Deserialize;
pub use ser::Serialize;
pub use token::{DecodeError, Token, Wire};

verus! {

/// Encodes a value as one byte string; meant as the field-level encoding
/// hook of a serialization framework.
pub fn serialize<T: Serialize>(bytes: &T) -> (t: Token)
    ensures
        t@ == bytes.wire(),
{
    bytes.serialize()
}

/// Decodes a value from a byte string, a text string or a sequence of bytes;
/// meant as the field-level decoding hook of a serialization framework.
pub fn deserialize<'de, T: Deserialize<'de>>(t: &'de Token) -> (r: Result<T, DecodeError>)
    ensures
        T::decodes(t@, r),
{
    T::deserialize(t)
}

} // verus!
