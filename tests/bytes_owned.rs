use simple_bytes::{BytesOwned, BytesRead, BytesSeek, BytesWrite};

#[test]
fn bytes_owned_write() {
    let mut bytes = BytesOwned::new();
    assert_eq!(bytes.len(), 0);

    let to_write: Vec<u8> = (0..10).collect();
    bytes.write(&to_write);
    bytes.write(&to_write);

    assert_eq!(bytes.len(), 20);

    assert_eq!(&bytes.as_mut()[..10], to_write.as_slice());
    assert_eq!(&bytes.as_mut()[10..20], to_write.as_slice());

    bytes.write_u8(5u8);
    bytes.write_u16(20u16);

    assert_eq!(bytes.len(), 23);

    // seek
    bytes.seek(20);
    assert_eq!(bytes.len(), 23);

    // seek
    bytes.seek(99);
    assert_eq!(bytes.len(), 99);
    // should now write to the 99 byte // this is the last byte
    // this will resize
    bytes.write_u8(5u8);
    assert_eq!(bytes.as_mut()[99], 5u8);
    assert_eq!(bytes.len(), 100);
}

#[test]
fn bytes_owned_read() {
    let bytes: Vec<u8> = (1..=255).collect();
    let mut bytes: BytesOwned = bytes.into();

    assert_eq!(bytes.as_slice(), bytes.as_slice());
    assert_eq!(bytes.len(), 255);
    assert_eq!(bytes.remaining().len(), 255);

    let to_read: Vec<u8> = (1..=10).collect();
    assert_eq!(to_read.as_slice(), bytes.read(10));
    assert_eq!(bytes.remaining().len(), 255 - 10);

    assert_eq!(11u8, bytes.read_u8());

    // peek
    let to_peek: Vec<u8> = (12..=20).collect();
    assert_eq!(to_peek.as_slice(), bytes.peek(to_peek.len()).unwrap());

    bytes.seek(255);
    assert_eq!(bytes.remaining().len(), 0);
    bytes.seek(254);
    assert_eq!(255u8, bytes.read_u8());

    bytes.seek(256); // should have allocated one byte
    bytes.seek(255);
    assert_eq!(0u8, bytes.read_u8());
}

#[test]
fn bytes_owned_test_empty() {
    let mut bytes = BytesOwned::new();
    assert_eq!(bytes.as_slice(), &[]);
    assert_eq!(bytes.len(), 0);
    bytes.seek(0);
    assert_eq!(bytes.len(), 0);
}
