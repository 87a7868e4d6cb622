use simple_bytes::{BytesRead, BytesSeek, BytesWrite, Cursor, OffsetCursor};

#[test]
fn offset_cursor_write() {
    let cursor = Cursor::new(vec![1, 2, 3, 4]);
    let mut offset_cursor = OffsetCursor::new(cursor, 2);
    assert_eq!(offset_cursor.remaining_mut().len(), 2);
    offset_cursor.write(&[1]);
    assert_eq!(offset_cursor.remaining_mut().len(), 1);
    offset_cursor.write(&[2]);
    assert_eq!(offset_cursor.remaining_mut().len(), 0);
    offset_cursor.write(&[1, 2]);

    assert_eq!(offset_cursor.as_mut(), &[1, 2, 1, 2]);
}

#[test]
fn offset_cursor_read() {
    let cursor = Cursor::new(vec![1, 2, 3, 4]);
    let mut offset_cursor = OffsetCursor::new(cursor, 2);
    assert_eq!(offset_cursor.position(), 0);
    offset_cursor.seek(1);
    assert_eq!(offset_cursor.position(), 1);
    assert_eq!(offset_cursor.as_slice(), &[3, 4]);
    assert_eq!(offset_cursor.remaining(), &[4]);

    offset_cursor.set_offset(1);
    assert_eq!(offset_cursor.position(), 1);
    assert_eq!(offset_cursor.as_slice(), &[2, 3, 4]);
    assert_eq!(offset_cursor.remaining(), &[3, 4]);
}
