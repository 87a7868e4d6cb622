use simple_bytes::{Bytes, BytesRead, BytesSeek};

#[test]
fn bytes_read() {
    let bytes: Vec<u8> = (0..=255).collect();
    let mut bytes = Bytes::from(bytes.as_slice());
    assert_eq!(bytes.as_slice(), bytes.as_slice());
    assert_eq!(bytes.len(), 256);
    assert_eq!(bytes.remaining().len(), 256);

    let to_read: Vec<u8> = (0..10).collect();
    assert_eq!(to_read.as_slice(), bytes.read(10));
    assert_eq!(bytes.remaining().len(), 256 - 10);

    assert_eq!(10u8, bytes.read_u8());

    // peek
    let to_peek: Vec<u8> = (11..=20).collect();
    assert_eq!(to_peek.as_slice(), bytes.peek(10).unwrap());

    bytes.seek(255);
    assert_eq!(255u8, bytes.read_u8());

    assert_eq!(bytes.position(), 256);
    bytes.seek(256);
}

#[test]
fn read_le() {
    let b = u16::MAX - 20;
    println!("be: {:?}", b.to_be_bytes());
    let bytes = b.to_le_bytes();
    println!("le: {:?}", bytes);
    let mut bytes = Bytes::from(&bytes[..]);
    assert_ne!(bytes.read_u16(), b);
    bytes.seek(0);
    println!("buffer: {:?}", bytes.as_slice());
    assert_eq!(bytes.read_le_u16(), b);
}

#[test]
fn bytes_test_empty() {
    let mut bytes = Bytes::from(&[][..]);
    assert_eq!(bytes.as_slice(), &[]);
    assert_eq!(bytes.len(), 0);
    bytes.seek(0);
}

#[test]
#[should_panic]
fn test_seek_empty() {
    let mut bytes = Bytes::from(&[][..]);
    bytes.seek(1);
}

#[test]
#[should_panic]
fn read_out_of_bound() {
    let bytes = [0u8; 100];
    let mut bytes = Bytes::from(&bytes[..]);

    bytes.seek(100);

    let _ = bytes.read_u8();
}

#[test]
#[should_panic]
fn seek_out_of_bound() {
    let bytes = [0u8; 100];
    let mut bytes = Bytes::from(&bytes[..]);

    bytes.seek(101);
}
