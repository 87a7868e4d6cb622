use simple_bytes::{BytesArray, BytesRead, BytesSeek, BytesWrite};

#[test]
fn bytes_array_write() {
    let mut bytes = BytesArray::from([0u8; 100]);
    assert_eq!(bytes.len(), 100);

    let to_write: Vec<u8> = (0..10).collect();
    bytes.write(&to_write);
    bytes.write(&to_write);

    assert_eq!(bytes.remaining().len(), 100 - 20);
    assert_eq!(bytes.remaining().len(), bytes.remaining_mut().len());

    assert_eq!(&bytes.as_mut()[..10], to_write.as_slice());
    assert_eq!(&bytes.as_bytes().peek(20).unwrap()[10..], to_write.as_slice());

    bytes.write_u8(5u8);
    bytes.write_u16(20u16);

    assert_eq!(bytes.remaining_mut().len(), 100 - 23);

    // seek
    bytes.seek(99);
    // should now write to the 99 byte // this is the last byte
    bytes.write_u8(5u8);
    assert_eq!(bytes.remaining_mut().len(), 0);
    assert_eq!(bytes.as_mut()[99], 5u8);
}

#[test]
fn bytes_array_write_le() {
    let b = u16::MAX - 20;
    let le = b.to_le_bytes();
    let mut bytes = BytesArray::from([0u8; 2]);
    bytes.write_le_u16(b);
    assert_eq!(bytes.as_slice(), le);
}

#[test]
fn bytes_array_test_empty() {
    let mut bytes = BytesArray::from([0u8; 0]);
    assert_eq!(bytes.as_slice(), &[]);
    assert_eq!(bytes.len(), 0);
    bytes.seek(0);
}

#[test]
#[should_panic]
fn bytes_array_write_overflow() {
    let mut bytes = BytesArray::from([0u8; 100]);

    // seek
    bytes.seek(100);

    bytes.write_u8(5u8);
}
