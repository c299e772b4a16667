use serde_byte_array::{deserialize, serialize, ByteArray, DecodeError, Token};

fn bytes(b: &[u8]) -> Token {
    Token::Bytes(b.to_vec())
}

fn text(s: &str) -> Token {
    Token::Str(String::from(s))
}

#[test]
fn test_bytearray() {
    let empty = ByteArray::new([]);
    assert_eq!(serialize(&empty), bytes(b""));
    assert_eq!(deserialize::<ByteArray<0>>(&bytes(b"")), Ok(empty));
    assert_eq!(deserialize::<ByteArray<0>>(&text("")), Ok(empty));

    let buf = [65, 66, 67];
    let bytes_ = ByteArray::new(buf);
    assert_eq!(serialize(&bytes_), bytes(b"ABC"));
    assert_eq!(deserialize::<ByteArray<3>>(&bytes(b"ABC")), Ok(bytes_));
    assert_eq!(deserialize::<ByteArray<3>>(&text("ABC")), Ok(bytes_));
}

#[test]
fn test_bytearray_ref() {
    let empty = &ByteArray::new([]);
    assert_eq!(serialize(&empty), bytes(b""));
    let t = bytes(b"");
    assert_eq!(deserialize::<&[u8; 0]>(&t), Ok(&**empty));
    let t = text("");
    assert_eq!(deserialize::<&[u8; 0]>(&t), Ok(&**empty));

    let buf = [65, 66, 67];
    let bytes_ = &ByteArray::new(buf);
    assert_eq!(serialize(&bytes_), bytes(b"ABC"));
    let t = bytes(b"ABC");
    assert_eq!(deserialize::<&[u8; 3]>(&t), Ok(&**bytes_));
    let t = text("ABC");
    assert_eq!(deserialize::<&[u8; 3]>(&t), Ok(&**bytes_));
}

#[test]
fn test_array() {
    let empty: [u8; 0] = [];
    assert_eq!(serialize(&empty), bytes(b""));
    assert_eq!(deserialize::<[u8; 0]>(&bytes(b"")), Ok(empty));
    assert_eq!(deserialize::<[u8; 0]>(&text("")), Ok(empty));

    let buf: [u8; 3] = [65, 66, 67];
    assert_eq!(serialize(&buf), bytes(b"ABC"));
    assert_eq!(deserialize::<[u8; 3]>(&bytes(b"ABC")), Ok(buf));
    assert_eq!(deserialize::<[u8; 3]>(&text("ABC")), Ok(buf));
}

#[test]
fn test_array_ref() {
    let empty: &[u8; 0] = &[];
    assert_eq!(serialize(&empty), bytes(b""));
    let t = bytes(b"");
    assert_eq!(deserialize::<&[u8; 0]>(&t), Ok(empty));
    let t = text("");
    assert_eq!(deserialize::<&[u8; 0]>(&t), Ok(empty));

    let buf: [u8; 3] = [65, 66, 67];
    let r = &buf;
    assert_eq!(serialize(&r), bytes(b"ABC"));
    let t = bytes(b"ABC");
    assert_eq!(deserialize::<&[u8; 3]>(&t), Ok(r));
    let t = text("ABC");
    assert_eq!(deserialize::<&[u8; 3]>(&t), Ok(r));
}
