use simple_bytes::{
    seek_from_to_n_pos, Bytes, BytesArray, BytesMut, BytesOwned, BytesRead, BytesReadRef,
    BytesSeek, BytesWrite, Cursor, Offset, ReadError, SeekError, SeekFrom, SeekFromError,
    WriteError,
};

#[test]
fn round_trip_u16_le_example() {
    let mut bytes = BytesOwned::with_capacity(2);
    bytes.write_le_u16(65515);
    assert_eq!(bytes.len(), 2);
    bytes.seek(0);
    assert_eq!(bytes.read_le_u16(), 65515);
    bytes.seek(0);
    // 65515 is 0xffeb: read most significant byte first it becomes 0xebff
    let swapped = bytes.read_u16();
    assert_ne!(swapped, 65515);
    assert_eq!(swapped, 60415);
}

#[test]
fn round_trip_unsigned_widths() {
    let mut bytes = BytesOwned::new();
    bytes.write_u8(0xab);
    bytes.write_u16(0x1234);
    bytes.write_u32(0xdead_beef);
    bytes.write_u64(0x0102_0304_0506_0708);
    bytes.write_u128(u128::MAX - 1);
    bytes.write_le_u8(0xcd);
    bytes.write_le_u16(0x4321);
    bytes.write_le_u32(0xfeed_f00d);
    bytes.write_le_u64(u64::MAX);
    bytes.write_le_u128(0x0011_2233_4455_6677_8899_aabb_ccdd_eeff);
    assert_eq!(bytes.len(), 2 * (1 + 2 + 4 + 8 + 16));
    bytes.seek(0);
    assert_eq!(bytes.read_u8(), 0xab);
    assert_eq!(bytes.read_u16(), 0x1234);
    assert_eq!(bytes.read_u32(), 0xdead_beef);
    assert_eq!(bytes.read_u64(), 0x0102_0304_0506_0708);
    assert_eq!(bytes.read_u128(), u128::MAX - 1);
    assert_eq!(bytes.read_le_u8(), 0xcd);
    assert_eq!(bytes.read_le_u16(), 0x4321);
    assert_eq!(bytes.read_le_u32(), 0xfeed_f00d);
    assert_eq!(bytes.read_le_u64(), u64::MAX);
    assert_eq!(bytes.read_le_u128(), 0x0011_2233_4455_6677_8899_aabb_ccdd_eeff);
    assert_eq!(bytes.remaining().len(), 0);
}

#[test]
fn round_trip_signed_widths() {
    let mut bytes = BytesOwned::new();
    bytes.write_i8(-128);
    bytes.write_i16(-2);
    bytes.write_i32(i32::MIN + 7);
    bytes.write_i64(-1);
    bytes.write_i128(i128::MIN);
    bytes.write_le_i8(127);
    bytes.write_le_i16(-300);
    bytes.write_le_i32(-65536);
    bytes.write_le_i64(i64::MAX);
    bytes.write_le_i128(-12345678901234567890);
    bytes.seek(0);
    assert_eq!(bytes.read_i8(), -128);
    assert_eq!(bytes.read_i16(), -2);
    assert_eq!(bytes.read_i32(), i32::MIN + 7);
    assert_eq!(bytes.read_i64(), -1);
    assert_eq!(bytes.read_i128(), i128::MIN);
    assert_eq!(bytes.read_le_i8(), 127);
    assert_eq!(bytes.read_le_i16(), -300);
    assert_eq!(bytes.read_le_i32(), -65536);
    assert_eq!(bytes.read_le_i64(), i64::MAX);
    assert_eq!(bytes.read_le_i128(), -12345678901234567890);
}

#[test]
fn byte_patterns_of_numbers() {
    let mut bytes = BytesOwned::new();
    bytes.write_u32(0x0102_0304);
    bytes.write_le_u32(0x0102_0304);
    bytes.write_i16(-2);
    bytes.write_le_i16(-2);
    assert_eq!(
        bytes.as_slice(),
        &[1, 2, 3, 4, 4, 3, 2, 1, 0xff, 0xfe, 0xfe, 0xff]
    );
}

#[test]
fn failed_read_consumes_nothing() {
    let data = [1u8, 2, 3, 4, 5];
    let mut bytes = Bytes::from(&data[..]);
    bytes.seek(2);
    assert_eq!(bytes.try_read(4), Err(ReadError));
    assert_eq!(bytes.position(), 2);
    assert_eq!(bytes.try_read_u32(), Err(ReadError));
    assert_eq!(bytes.position(), 2);
    assert_eq!(bytes.try_read(3), Ok(&[3u8, 4, 5][..]));
    assert_eq!(bytes.position(), 5);
    assert_eq!(bytes.try_read(1), Err(ReadError));
    assert_eq!(bytes.try_read(0), Ok(&[][..]));
}

#[test]
fn growable_write_lengths() {
    let mut bytes = BytesOwned::from(vec![9u8; 10]);
    bytes.seek(4);
    bytes.write(&[1, 2]);
    assert_eq!(bytes.len(), 10);
    assert_eq!(bytes.as_slice(), &[9, 9, 9, 9, 1, 2, 9, 9, 9, 9]);
    bytes.seek(8);
    assert_eq!(bytes.try_write(&[3, 4, 5, 6]), Ok(()));
    assert_eq!(bytes.len(), 12);
    assert_eq!(bytes.position(), 12);
    assert_eq!(bytes.as_slice(), &[9, 9, 9, 9, 1, 2, 9, 9, 3, 4, 5, 6]);
    assert_eq!(bytes.try_write(&[7]), Ok(()));
    assert_eq!(bytes.into_vec(), vec![9, 9, 9, 9, 1, 2, 9, 9, 3, 4, 5, 6, 7]);
}

#[test]
fn gap_zero_fill() {
    let mut bytes = BytesOwned::new();
    bytes.seek(99);
    bytes.write_u8(7);
    assert_eq!(bytes.len(), 100);
    assert!(bytes.as_slice()[..99].iter().all(|b| *b == 0));
    assert_eq!(bytes.as_slice()[99], 7);
}

#[test]
fn new_raw_past_the_end() {
    let bytes = BytesOwned::new_raw(3, vec![5u8]);
    assert_eq!(bytes.as_slice(), &[5, 0, 0]);
    assert_eq!(bytes.position(), 3);
}

#[test]
fn fixed_capacity_boundary() {
    let mut bytes = BytesArray::from([0u8; 100]);
    bytes.seek(100);
    assert_eq!(bytes.try_write_u8(1), Err(WriteError));
    assert_eq!(bytes.position(), 100);
    bytes.seek(99);
    assert_eq!(bytes.try_write_u8(1), Ok(()));
    assert_eq!(bytes.remaining_mut().len(), 0);
    assert_eq!(bytes.try_seek(101), Err(SeekError(100)));
    let array: [u8; 100] = bytes.into();
    assert_eq!(array[99], 1);
}

#[test]
fn fixed_write_is_all_or_nothing() {
    let mut data = [0u8; 4];
    let mut bytes = BytesMut::new(2, &mut data[..]);
    assert_eq!(bytes.try_write(&[1, 2, 3]), Err(WriteError));
    assert_eq!(bytes.position(), 2);
    assert_eq!(bytes.as_slice(), &[0, 0, 0, 0]);
    assert_eq!(bytes.try_write_le_u16(0x0102), Ok(()));
    assert_eq!(data, [0, 0, 2, 1]);
}

#[test]
fn offset_composition() {
    let mut offset = Offset::new(BytesOwned::from(vec![1, 2, 3, 4]), 2);
    assert_eq!(offset.as_slice(), &[3, 4]);
    assert_eq!(offset.remaining(), &[3, 4]);
    offset.write_u8(5);
    assert_eq!(offset.as_slice(), &[5, 4]);
    assert_eq!(offset.remaining(), &[4]);
    offset.seek(2);
    offset.write_u8(5);
    assert_eq!(offset.as_slice(), &[5, 4, 5]);
    assert_eq!(offset.as_bytes().as_slice(), &[5, 4, 5]);
    assert_eq!(offset.into_inner().into_vec(), vec![1, 2, 5, 4, 5]);
}

#[test]
fn offset_relative_to_position() {
    let data = [1u8, 2, 3, 4, 5, 6];
    let mut inner = Bytes::from(&data[..]);
    inner.seek(1);
    let mut offset = Offset::new(inner, 2);
    assert_eq!(offset.position(), 1);
    assert_eq!(offset.as_slice(), &[3, 4, 5, 6]);
    assert_eq!(offset.read_u8(), 4);
    assert_eq!(offset.max_position(), 4);
    assert_eq!(offset.try_seek(5), Err(SeekError(4)));
    assert_eq!(offset.try_seek(usize::MAX), Err(SeekError(4)));
    assert_eq!(offset.position(), 2);
    assert_eq!(offset.inner().position(), 4);
}

#[test]
fn peek_is_non_advancing() {
    let data = [10u8, 20, 30];
    let mut bytes = Bytes::from(&data[..]);
    let peeked = bytes.peek(2).map(|s| s.to_vec());
    assert_eq!(bytes.position(), 0);
    let read = bytes.try_read(2).map(|s| s.to_vec());
    assert_eq!(peeked, Some(vec![10, 20]));
    assert_eq!(read, Ok(vec![10, 20]));
    assert_eq!(bytes.peek(2), None);
    assert_eq!(bytes.peek(1), Some(&[30u8][..]));
}

#[test]
fn read_ref_outlives_the_cursor() {
    let data = *b"hey";
    let rest: &[u8];
    {
        let mut bytes = Bytes::from(&data[..]);
        assert_eq!(bytes.read_u8(), b'h');
        assert_eq!(bytes.peek_ref(1), Some(&b"e"[..]));
        rest = bytes.remaining_ref();
        assert_eq!(bytes.try_read_ref(3), Err(ReadError));
        assert_eq!(bytes.read_ref(1), b"e");
        assert_eq!(bytes.inner(), b"hey");
    }
    assert_eq!(rest, b"ey");
}

#[test]
fn advance_moves_forward() {
    let data = [0u8; 8];
    let mut bytes = Bytes::new(3, &data[..]);
    bytes.advance(2);
    assert_eq!(bytes.position(), 5);
    assert_eq!(bytes.try_advance(4), Err(SeekError(8)));
    assert_eq!(bytes.try_advance(usize::MAX), Err(SeekError(8)));
    assert_eq!(bytes.position(), 5);
    let mut owned = BytesOwned::new();
    assert_eq!(owned.try_advance(3), Ok(()));
    assert_eq!(owned.as_slice(), &[0, 0, 0]);
}

#[test]
fn cursor_over_borrowed_vec() {
    let mut vec = vec![1u8, 2];
    {
        let mut cursor = Cursor::new(&mut vec);
        cursor.seek(1);
        cursor.write(&[7, 8, 9]);
        assert_eq!(cursor.position(), 4);
        assert_eq!(cursor.as_bytes().as_slice(), &[1, 7, 8, 9]);
    }
    assert_eq!(vec, vec![1, 7, 8, 9]);
}

#[test]
fn set_offset_keeps_position() {
    let mut offset = Offset::new(Cursor::new(vec![1u8, 2, 3, 4, 5]), 1);
    offset.seek(2);
    offset.set_offset(2);
    assert_eq!(offset.position(), 2);
    assert_eq!(offset.as_slice(), &[3, 4, 5]);
    assert_eq!(offset.inner().position(), 4);
}

#[test]
fn seek_from_targets() {
    assert_eq!(seek_from_to_n_pos(10, 4, SeekFrom::Start(7)), Ok(7));
    assert_eq!(seek_from_to_n_pos(10, 4, SeekFrom::Current(3)), Ok(7));
    assert_eq!(seek_from_to_n_pos(10, 4, SeekFrom::Current(-4)), Ok(0));
    assert_eq!(seek_from_to_n_pos(10, 4, SeekFrom::End(-3)), Ok(7));
    assert_eq!(seek_from_to_n_pos(10, 4, SeekFrom::End(2)), Ok(12));
    assert_eq!(seek_from_to_n_pos(10, 4, SeekFrom::End(-1)), Ok(9));
    assert_eq!(
        seek_from_to_n_pos(10, 4, SeekFrom::Current(-5)),
        Err(SeekFromError::OutOfRange)
    );
    assert_eq!(
        seek_from_to_n_pos(10, 4, SeekFrom::End(-11)),
        Err(SeekFromError::OutOfRange)
    );
    assert_eq!(
        seek_from_to_n_pos(10, 4, SeekFrom::End(i64::MAX)),
        Err(SeekFromError::OutOfRange)
    );
    assert_eq!(
        seek_from_to_n_pos(usize::MAX, 4, SeekFrom::End(0)),
        Err(SeekFromError::TooLarge)
    );
    assert_eq!(
        seek_from_to_n_pos(10, usize::MAX, SeekFrom::Current(0)),
        Err(SeekFromError::TooLarge)
    );
}

fn fill_with_header<W: BytesWrite>(mut w: W) {
    w.write_u16(0x0102);
    w.write_le_u16(0x0304);
}

#[test]
fn write_through_mutable_reference() {
    let mut bytes = BytesOwned::new();
    fill_with_header(&mut bytes);
    fill_with_header(&mut bytes);
    assert_eq!(bytes.as_slice(), &[1, 2, 4, 3, 1, 2, 4, 3]);
    let mut array = BytesArray::from([0u8; 3]);
    let mut by_ref = &mut array;
    assert_eq!(by_ref.try_write(&[1, 2, 3, 4]), Err(WriteError));
    assert_eq!(by_ref.as_bytes().as_slice(), &[0, 0, 0]);
}

#[test]
fn offset_write_keeps_hidden_bytes() {
    let mut offset = Offset::new(Cursor::new(vec![1u8, 2, 3, 4]), 2);
    offset.write(&[1]);
    offset.write(&[2]);
    offset.write(&[1, 2]);
    assert_eq!(offset.as_mut(), &[1, 2, 1, 2]);
    assert_eq!(offset.inner().as_slice(), &[1, 2, 1, 2, 1, 2]);
}
